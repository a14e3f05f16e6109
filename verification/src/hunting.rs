//! The model of a hunt: what a search finds, what a hunt leaves behind.
//!
//! The functions here are for contracts and proofs only. They see an arena
//! of reefs as a sequence of queues of prey, and a crab as its diet and the
//! sequence of reef indices that it forages, in the order of discovery.

use crate::diet::Diet;
use crate::prey::{Prey, DRAW_BOUND};
use crate::reef::Reef;
use vstd::prelude::*;

verus! {

/// What each reef of an arena holds, reef by reef.
pub open spec fn census(reefs: Seq<Reef>) -> Seq<Seq<Prey>> {
    Seq::new(reefs.len(), |i: int| reefs[i]@)
}

/// Every reef that `handles` names is one of the first `count` reefs.
pub open spec fn within(handles: Seq<usize>, count: nat) -> bool {
    forall|i: int| 0 <= i < handles.len() ==> handles[i] < count
}

/// The index of the first prey at or behind `start` that is eaten as `diet`,
/// or the length of the reef where there is none.
pub open spec fn first_match_from(reef: Seq<Prey>, diet: Diet, start: int) -> int
    decreases reef.len() - start,
{
    if start >= reef.len() {
        reef.len() as int
    } else if reef[start].diet() == diet {
        start
    } else {
        first_match_from(reef, diet, start + 1)
    }
}

/// The index of the first prey that is eaten as `diet`, or the length of the
/// reef where there is none.
pub open spec fn first_match(reef: Seq<Prey>, diet: Diet) -> int {
    first_match_from(reef, diet, 0)
}

/// Whether the reef holds a prey that is eaten as `diet`.
pub open spec fn stocks(reef: Seq<Prey>, diet: Diet) -> bool {
    exists|k: int| 0 <= k < reef.len() && (#[trigger] reef[k]).diet() == diet
}

/// The reef after a search has drawn the prey at `index` out of it: the
/// prey in front of it were taken and put back one by one, so they now wait
/// behind those that were behind it.
pub open spec fn drawn(reef: Seq<Prey>, index: int) -> Seq<Prey> {
    reef.subrange(index + 1, reef.len() as int) + reef.subrange(0, index)
}

/// The first position at or behind `start` in `handles` whose reef stocks
/// `diet`, or the length of `handles` where there is none.
pub open spec fn first_stocked_from(
    handles: Seq<usize>,
    waters: Seq<Seq<Prey>>,
    diet: Diet,
    start: int,
) -> int
    decreases handles.len() - start,
{
    if start >= handles.len() {
        handles.len() as int
    } else if stocks(waters[handles[start] as int], diet) {
        start
    } else {
        first_stocked_from(handles, waters, diet, start + 1)
    }
}

/// What a search has found: the prey, the position in the crab's list of
/// the reef that it came from, and the arena without it.
pub struct Find {
    pub prey: Prey,
    pub position: int,
    pub waters: Seq<Seq<Prey>>,
}

/// One search for a prey that is eaten as `diet`, through the reefs that
/// `handles` names, in that order: the first such prey of the first reef
/// that stocks one. Nothing is found where no reef stocks one.
pub open spec fn search(handles: Seq<usize>, waters: Seq<Seq<Prey>>, diet: Diet) -> Option<Find> {
    let position = first_stocked_from(handles, waters, diet, 0);
    if position < handles.len() {
        let reef = handles[position] as int;
        let index = first_match(waters[reef], diet);
        Some(
            Find {
                prey: waters[reef][index],
                position,
                waters: waters.update(reef, drawn(waters[reef], index)),
            },
        )
    } else {
        None
    }
}

/// The arena after `prey` has been released into the reef at index `reef`:
/// it waits there behind all the others.
pub open spec fn released(waters: Seq<Seq<Prey>>, reef: int, prey: Prey) -> Seq<Seq<Prey>> {
    waters.update(reef, waters[reef].push(prey))
}

/// The arena after every escaped prey has been released, in the order of
/// escape, into the reef that it was taken from. An escaped prey is kept
/// with the index of its reef.
pub open spec fn released_all(waters: Seq<Seq<Prey>>, escaped: Seq<(Prey, int)>) -> Seq<Seq<Prey>>
    decreases escaped.len(),
{
    if escaped.len() == 0 {
        waters
    } else {
        released_all(released(waters, escaped[0].1, escaped[0].0), escaped.drop_first())
    }
}

/// The escaped prey that a hunting crab holds aside, each with the index of
/// its reef in place of the position of that reef in the crab's list, by
/// which the crab keeps it.
pub open spec fn origins(handles: Seq<usize>, escaped: Seq<(Prey, usize)>) -> Seq<(Prey, int)> {
    Seq::new(escaped.len(), |i: int| (escaped[i].0, handles[escaped[i].1 as int] as int))
}

/// How many prey the reefs of an arena hold together.
pub open spec fn total_population(waters: Seq<Seq<Prey>>) -> nat
    decreases waters.len(),
{
    if waters.len() == 0 {
        0
    } else {
        total_population(waters.drop_last()) + waters.last().len()
    }
}

/// A catch: the prey as it was when the crab got hold of it for good, and
/// the index in the arena of the reef that it was taken from.
pub struct Catch {
    pub prey: Prey,
    pub reef: int,
}

/// How a hunt ended: the catch, if there was one, and the arena that the
/// hunt left behind.
pub struct Outcome {
    pub catch: Option<Catch>,
    pub waters: Seq<Seq<Prey>>,
}

/// Every draw is one that can be made: it lies below [`DRAW_BOUND`].
pub open spec fn fair(draws: Seq<u32>) -> bool {
    forall|i: int| 0 <= i < draws.len() ==> #[trigger] draws[i] < DRAW_BOUND
}

/// The draw made for the next attempt: the first of `draws`. Where the
/// draws have run out, it is zero.
pub open spec fn next_draw(draws: Seq<u32>) -> u32 {
    if draws.len() > 0 {
        draws[0]
    } else {
        0
    }
}

/// The draws that are left after the next attempt.
pub open spec fn later_draws(draws: Seq<u32>) -> Seq<u32> {
    if draws.len() > 0 {
        draws.drop_first()
    } else {
        draws
    }
}

/// A hunt from the moment at which the crab, holding the prey in `escaped`,
/// searches again.
///
/// The crab searches; where it finds nothing, the hunt fails. Otherwise the
/// prey that it found tries to get away, on the next draw. A prey that gets
/// away joins the escaped ones, and the crab searches again without it; a
/// prey that does not is the catch. Either way the hunt ends with the
/// release of all escaped prey.
pub open spec fn hunt_from(
    handles: Seq<usize>,
    diet: Diet,
    waters: Seq<Seq<Prey>>,
    escaped: Seq<(Prey, int)>,
    draws: Seq<u32>,
) -> Outcome
    decreases total_population(waters),
    when within(handles, waters.len())
    via hunt_from_decreases
{
    match search(handles, waters, diet) {
        None => Outcome { catch: None, waters: released_all(waters, escaped) },
        Some(find) => if find.prey.escapes_on(next_draw(draws)) {
            hunt_from(
                handles,
                diet,
                find.waters,
                escaped.push((find.prey.after_attempt(), handles[find.position] as int)),
                later_draws(draws),
            )
        } else {
            Outcome {
                catch: Some(
                    Catch { prey: find.prey.after_attempt(), reef: handles[find.position] as int },
                ),
                waters: released_all(find.waters, escaped),
            }
        },
    }
}

#[via_fn]
proof fn hunt_from_decreases(
    handles: Seq<usize>,
    diet: Diet,
    waters: Seq<Seq<Prey>>,
    escaped: Seq<(Prey, int)>,
    draws: Seq<u32>,
) {
    lemma_search(handles, waters, diet);
}

/// A whole hunt of a crab that eats `diet` and forages the reefs that
/// `handles` names, with `draws` made for its attempts, one after another.
pub open spec fn hunt_outcome(
    handles: Seq<usize>,
    diet: Diet,
    waters: Seq<Seq<Prey>>,
    draws: Seq<u32>,
) -> Outcome {
    hunt_from(handles, diet, waters, Seq::empty(), draws)
}

/// Replacing one reef changes the total by the difference in size.
pub proof fn lemma_total_population_update(waters: Seq<Seq<Prey>>, index: int, reef: Seq<Prey>)
    requires
        0 <= index < waters.len(),
    ensures
        total_population(waters.update(index, reef)) == total_population(waters)
            - waters[index].len() + reef.len(),
    decreases waters.len(),
{
    let changed = waters.update(index, reef);
    if index == waters.len() - 1 {
        assert(changed.drop_last() =~= waters.drop_last());
    } else {
        assert(changed.drop_last() =~= waters.drop_last().update(index, reef));
        lemma_total_population_update(waters.drop_last(), index, reef);
    }
}

/// What a search finds, where the crab's reefs all exist: a prey that is
/// eaten as `diet`, the first of its reef, which is the first reef that
/// stocks one; and the arena is left with one prey less, in that reef.
pub proof fn lemma_search(handles: Seq<usize>, waters: Seq<Seq<Prey>>, diet: Diet)
    requires
        within(handles, waters.len()),
    ensures
        match search(handles, waters, diet) {
            Some(find) => {
                &&& 0 <= find.position < handles.len()
                &&& find.prey.diet() == diet
                &&& find.waters.len() == waters.len()
                &&& within(handles, find.waters.len())
                &&& find.waters[handles[find.position] as int].len() + 1
                    == waters[handles[find.position] as int].len()
                &&& total_population(find.waters) + 1 == total_population(waters)
            },
            None => forall|i: int|
                0 <= i < handles.len() ==> !stocks(waters[(#[trigger] handles[i]) as int], diet),
        },
{
    lemma_first_stocked_from(handles, waters, diet, 0);
    let position = first_stocked_from(handles, waters, diet, 0);
    if position < handles.len() {
        let reef = handles[position] as int;
        lemma_first_match_from(waters[reef], diet, 0);
        lemma_stocks(waters[reef], diet);
        let index = first_match(waters[reef], diet);
        lemma_total_population_update(waters, reef, drawn(waters[reef], index));
    }
}

/// What `first_match_from` returns: an index from `start` to the length of
/// the reef, with no match from `start` up to it and, where it is an index
/// of the reef, a match at it.
pub proof fn lemma_first_match_from(reef: Seq<Prey>, diet: Diet, start: int)
    requires
        0 <= start <= reef.len(),
    ensures
        start <= first_match_from(reef, diet, start) <= reef.len(),
        forall|j: int|
            start <= j < first_match_from(reef, diet, start) ==> (#[trigger] reef[j]).diet()
                != diet,
        first_match_from(reef, diet, start) < reef.len() ==> reef[first_match_from(
            reef,
            diet,
            start,
        )].diet() == diet,
    decreases reef.len() - start,
{
    if start < reef.len() && reef[start].diet() != diet {
        lemma_first_match_from(reef, diet, start + 1);
    }
}

/// A reef stocks a diet where its first match is one of its prey, and only
/// there.
pub proof fn lemma_stocks(reef: Seq<Prey>, diet: Diet)
    ensures
        stocks(reef, diet) <==> first_match(reef, diet) < reef.len(),
{
    lemma_first_match_from(reef, diet, 0);
}

/// An index with a match at it and none in front of it is the first match;
/// so is the length of a reef without a match.
pub proof fn lemma_first_match_is(reef: Seq<Prey>, diet: Diet, index: int)
    requires
        0 <= index <= reef.len(),
        forall|j: int| 0 <= j < index ==> (#[trigger] reef[j]).diet() != diet,
        index < reef.len() ==> reef[index].diet() == diet,
    ensures
        first_match(reef, diet) == index,
{
    lemma_first_match_from(reef, diet, 0);
}

/// What `first_stocked_from` returns: a position from `start` to the length
/// of `handles`, with no stocked reef from `start` up to it and, where it
/// is a position of `handles`, a stocked reef at it.
pub proof fn lemma_first_stocked_from(
    handles: Seq<usize>,
    waters: Seq<Seq<Prey>>,
    diet: Diet,
    start: int,
)
    requires
        0 <= start <= handles.len(),
    ensures
        start <= first_stocked_from(handles, waters, diet, start) <= handles.len(),
        forall|i: int|
            start <= i < first_stocked_from(handles, waters, diet, start) ==> !stocks(
                waters[(#[trigger] handles[i]) as int],
                diet,
            ),
        first_stocked_from(handles, waters, diet, start) < handles.len() ==> stocks(
            waters[handles[first_stocked_from(handles, waters, diet, start)] as int],
            diet,
        ),
    decreases handles.len() - start,
{
    if start < handles.len() && !stocks(waters[handles[start] as int], diet) {
        lemma_first_stocked_from(handles, waters, diet, start + 1);
    }
}

/// A position with a stocked reef at it and none in front of it is the
/// first stocked one; so is the length of `handles` where no reef is
/// stocked.
pub proof fn lemma_first_stocked_is(
    handles: Seq<usize>,
    waters: Seq<Seq<Prey>>,
    diet: Diet,
    position: int,
)
    requires
        0 <= position <= handles.len(),
        forall|i: int|
            0 <= i < position ==> !stocks(waters[(#[trigger] handles[i]) as int], diet),
        position < handles.len() ==> stocks(waters[handles[position] as int], diet),
    ensures
        first_stocked_from(handles, waters, diet, 0) == position,
{
    lemma_first_stocked_from(handles, waters, diet, 0);
}

} // verus!
