//! Recipes, and the book that a crab picks one from.

use crate::diet::Diet;
use vstd::prelude::*;

verus! {

/// A dish, and the diet that it suits.
#[derive(Debug)]
pub struct Recipe {
    pub name: String,
    pub diet: Diet,
}

/// Recipes in the order in which they were written down.
#[derive(Debug)]
pub struct Cookbook {
    pub recipes: Vec<Recipe>,
}

/// The index of the first recipe at or behind `start` that suits `diet`, or
/// the number of recipes where there is none.
pub open spec fn first_suiting_from(recipes: Seq<Recipe>, diet: Diet, start: int) -> int
    decreases recipes.len() - start,
{
    if start >= recipes.len() {
        recipes.len() as int
    } else if recipes[start].diet == diet {
        start
    } else {
        first_suiting_from(recipes, diet, start + 1)
    }
}

/// The index of the first recipe that suits `diet`, or the number of
/// recipes where there is none.
pub open spec fn first_suiting(recipes: Seq<Recipe>, diet: Diet) -> int {
    first_suiting_from(recipes, diet, 0)
}

/// What `first_suiting_from` returns: an index from `start` to the number of
/// recipes, with no suiting recipe from `start` up to it and, where it is
/// the index of a recipe, a suiting one at it.
pub proof fn lemma_first_suiting_from(recipes: Seq<Recipe>, diet: Diet, start: int)
    requires
        0 <= start <= recipes.len(),
    ensures
        start <= first_suiting_from(recipes, diet, start) <= recipes.len(),
        forall|j: int|
            start <= j < first_suiting_from(recipes, diet, start) ==> (#[trigger] recipes[j]).diet
                != diet,
        first_suiting_from(recipes, diet, start) < recipes.len() ==> recipes[first_suiting_from(
            recipes,
            diet,
            start,
        )].diet == diet,
    decreases recipes.len() - start,
{
    if start < recipes.len() && recipes[start].diet != diet {
        lemma_first_suiting_from(recipes, diet, start + 1);
    }
}

impl Recipe {
    pub fn new(name: String, diet: Diet) -> (recipe: Recipe)
        ensures
            recipe.name == name,
            recipe.diet == diet,
    {
        Recipe { name, diet }
    }

    pub fn name(&self) -> (name: &str)
        ensures
            name@ == self.name@,
    {
        self.name.as_str()
    }

    /// The diet that this recipe suits.
    pub fn diet(&self) -> (diet: Diet)
        ensures
            diet == self.diet,
    {
        self.diet
    }
}

impl Cookbook {
    /// A book without recipes.
    pub fn new() -> (book: Cookbook)
        ensures
            book.recipes@ == Seq::<Recipe>::empty(),
    {
        Cookbook { recipes: Vec::new() }
    }

    /// Writes a recipe down behind all the others.
    pub fn add_recipe(&mut self, recipe: Recipe)
        ensures
            final(self).recipes@ == old(self).recipes@.push(recipe),
    {
        self.recipes.push(recipe);
    }

    /// The recipes in order, for reading.
    pub fn recipes(&self) -> (recipes: &Vec<Recipe>)
        ensures
            recipes == self.recipes,
    {
        &self.recipes
    }
}

} // verus!
