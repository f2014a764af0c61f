//! The selection/checklist controller: which recipe is selected and which
//! of its ingredients and method steps have been checked off.

use vstd::prelude::*;
use crate::error::StateError;
use crate::recipe::Recipe;
use crate::recipe::Recipes;

verus! {

/// The session state of the recipe browser: the loaded collection together
/// with the selection cursor and the two checklist vectors.
pub struct RecipeBrowserApp {
    recipes: Recipes,
    selected_recipe: usize,
    ingredients_checked: Vec<bool>,
    methods_checked: Vec<bool>,
    recipe_is_selected: bool,
}

impl RecipeBrowserApp {
    /// The exact-length invariant: while a recipe is selected its ordinal is
    /// valid and each checklist vector is exactly as long as the selected
    /// recipe's corresponding item list; while none is, both vectors are
    /// empty.
    pub closed spec fn wf(&self) -> bool {
        &&& self.recipes.wf()
        &&& self.recipe_is_selected ==> {
            &&& self.selected_recipe < self.recipes@.len()
            &&& self.ingredients_checked@.len()
                == self.recipes@[self.selected_recipe as int].ingredients.len()
            &&& self.methods_checked@.len()
                == self.recipes@[self.selected_recipe as int].methods.len()
        }
        &&& !self.recipe_is_selected ==> {
            &&& self.ingredients_checked@.len() == 0
            &&& self.methods_checked@.len() == 0
        }
    }

    /// Whether any recipe is currently selected.
    pub closed spec fn spec_has_selection(&self) -> bool {
        self.recipe_is_selected
    }

    /// The ordinal of the selected recipe; meaningful only while one is
    /// selected.
    pub closed spec fn spec_selected(&self) -> int {
        self.selected_recipe as int
    }

    /// The ingredient check states, in ingredient order.
    pub closed spec fn spec_ingredients_checked(&self) -> Seq<bool> {
        self.ingredients_checked@
    }

    /// The method-step check states, in step order.
    pub closed spec fn spec_methods_checked(&self) -> Seq<bool> {
        self.methods_checked@
    }

    /// The loaded collection.
    pub closed spec fn spec_recipes(&self) -> Recipes {
        self.recipes
    }

    /// Wraps a loaded collection into a session with nothing selected yet.
    pub fn with_recipes(recipes: Recipes) -> (r: Self)
        requires
            recipes.wf(),
        ensures
            r.wf(),
            r.spec_recipes() == recipes,
            !r.spec_has_selection(),
            r.spec_ingredients_checked().len() == 0,
            r.spec_methods_checked().len() == 0,
    {
        RecipeBrowserApp {
            recipes,
            selected_recipe: 0,
            ingredients_checked: Vec::new(),
            methods_checked: Vec::new(),
            recipe_is_selected: false,
        }
    }

    /// Selects the recipe at `ordinal`: atomically replaces the whole
    /// selection state with a fresh one whose checklist vectors are all-false
    /// and exactly as long as that recipe's ingredient and method lists.
    /// When `ordinal` lies out of range nothing changes and `IndexError`
    /// comes back.
    pub fn select(&mut self, ordinal: usize) -> (r: Result<(), StateError>)
        requires
            old(self).wf(),
        ensures
            final(self).wf(),
            ordinal < old(self).spec_recipes()@.len() ==> {
                &&& r is Ok
                &&& final(self).spec_recipes() == old(self).spec_recipes()
                &&& final(self).spec_has_selection()
                &&& final(self).spec_selected() == ordinal
                &&& final(self).spec_ingredients_checked() == Seq::new(
                    old(self).spec_recipes()@[ordinal as int].ingredients.len(),
                    |i: int| false,
                )
                &&& final(self).spec_methods_checked() == Seq::new(
                    old(self).spec_recipes()@[ordinal as int].methods.len(),
                    |i: int| false,
                )
            },
            ordinal >= old(self).spec_recipes()@.len() ==> {
                &&& r == Err::<(), StateError>(StateError::IndexError)
                &&& *final(self) == *old(self)
            },
    {
        let ni: usize;
        let nm: usize;
        match self.recipes.get(ordinal) {
            Ok(rec) => {
                ni = rec.ingredients().len();
                nm = rec.methods().len();
            },
            Err(_) => {
                return Err(StateError::IndexError);
            },
        }
        self.selected_recipe = ordinal;
        self.ingredients_checked = falses(ni);
        self.methods_checked = falses(nm);
        self.recipe_is_selected = true;
        Ok(())
    }

    /// Flips the check state of ingredient `i` of the selected recipe.
    /// Without a selection, or with `i` out of bounds, nothing changes and
    /// the matching error comes back.
    pub fn toggle_ingredient(&mut self, i: usize) -> (r: Result<(), StateError>)
        requires
            old(self).wf(),
        ensures
            final(self).wf(),
            !old(self).spec_has_selection() ==> {
                &&& r == Err::<(), StateError>(StateError::NotSelected)
                &&& *final(self) == *old(self)
            },
            old(self).spec_has_selection() && i >= old(self).spec_ingredients_checked().len()
                ==> {
                &&& r == Err::<(), StateError>(StateError::IndexError)
                &&& *final(self) == *old(self)
            },
            old(self).spec_has_selection() && i < old(self).spec_ingredients_checked().len()
                ==> {
                &&& r is Ok
                &&& final(self).spec_ingredients_checked()
                    == old(self).spec_ingredients_checked().update(
                    i as int,
                    !old(self).spec_ingredients_checked()[i as int],
                )
                &&& final(self).spec_methods_checked() == old(self).spec_methods_checked()
                &&& final(self).spec_recipes() == old(self).spec_recipes()
                &&& final(self).spec_has_selection()
                &&& final(self).spec_selected() == old(self).spec_selected()
            },
    {
        if !self.recipe_is_selected {
            return Err(StateError::NotSelected);
        }
        if i >= self.ingredients_checked.len() {
            return Err(StateError::IndexError);
        }
        let cur = self.ingredients_checked[i];
        self.ingredients_checked.set(i, !cur);
        Ok(())
    }

    /// Flips the check state of method step `m` of the selected recipe.
    /// Without a selection, or with `m` out of bounds, nothing changes and
    /// the matching error comes back.
    pub fn toggle_method(&mut self, m: usize) -> (r: Result<(), StateError>)
        requires
            old(self).wf(),
        ensures
            final(self).wf(),
            !old(self).spec_has_selection() ==> {
                &&& r == Err::<(), StateError>(StateError::NotSelected)
                &&& *final(self) == *old(self)
            },
            old(self).spec_has_selection() && m >= old(self).spec_methods_checked().len() ==> {
                &&& r == Err::<(), StateError>(StateError::IndexError)
                &&& *final(self) == *old(self)
            },
            old(self).spec_has_selection() && m < old(self).spec_methods_checked().len() ==> {
                &&& r is Ok
                &&& final(self).spec_methods_checked() == old(self).spec_methods_checked().update(
                    m as int,
                    !old(self).spec_methods_checked()[m as int],
                )
                &&& final(self).spec_ingredients_checked() == old(
                    self,
                ).spec_ingredients_checked()
                &&& final(self).spec_recipes() == old(self).spec_recipes()
                &&& final(self).spec_has_selection()
                &&& final(self).spec_selected() == old(self).spec_selected()
            },
    {
        if !self.recipe_is_selected {
            return Err(StateError::NotSelected);
        }
        if m >= self.methods_checked.len() {
            return Err(StateError::IndexError);
        }
        let cur = self.methods_checked[m];
        self.methods_checked.set(m, !cur);
        Ok(())
    }

    /// Reads the check state of ingredient `i` of the selected recipe,
    /// without changing anything.
    pub fn is_checked_ingredient(&self, i: usize) -> (r: Result<bool, StateError>)
        ensures
            !self.spec_has_selection() ==> r == Err::<bool, StateError>(StateError::NotSelected),
            self.spec_has_selection() && i >= self.spec_ingredients_checked().len() ==> r == Err::<
                bool,
                StateError,
            >(StateError::IndexError),
            self.spec_has_selection() && i < self.spec_ingredients_checked().len() ==> r == Ok::<
                bool,
                StateError,
            >(self.spec_ingredients_checked()[i as int]),
    {
        if !self.recipe_is_selected {
            return Err(StateError::NotSelected);
        }
        if i >= self.ingredients_checked.len() {
            return Err(StateError::IndexError);
        }
        Ok(self.ingredients_checked[i])
    }

    /// Reads the check state of method step `m` of the selected recipe,
    /// without changing anything.
    pub fn is_checked_method(&self, m: usize) -> (r: Result<bool, StateError>)
        ensures
            !self.spec_has_selection() ==> r == Err::<bool, StateError>(StateError::NotSelected),
            self.spec_has_selection() && m >= self.spec_methods_checked().len() ==> r == Err::<
                bool,
                StateError,
            >(StateError::IndexError),
            self.spec_has_selection() && m < self.spec_methods_checked().len() ==> r == Ok::<
                bool,
                StateError,
            >(self.spec_methods_checked()[m as int]),
    {
        if !self.recipe_is_selected {
            return Err(StateError::NotSelected);
        }
        if m >= self.methods_checked.len() {
            return Err(StateError::IndexError);
        }
        Ok(self.methods_checked[m])
    }

    /// The currently selected recipe, or `None` while no recipe is selected.
    pub fn current_recipe(&self) -> (r: Option<&Recipe>)
        requires
            self.wf(),
        ensures
            self.spec_has_selection() ==> (r matches Some(rec) && rec@ == self.spec_recipes()@[self.spec_selected()]),
            !self.spec_has_selection() ==> r is None,
    {
        if !self.recipe_is_selected {
            return None;
        }
        match self.recipes.get(self.selected_recipe) {
            Ok(rec) => Some(rec),
            Err(_) => None,
        }
    }

    /// The loaded collection, for display.
    pub fn recipes(&self) -> (r: &Recipes)
        ensures
            *r == self.spec_recipes(),
    {
        &self.recipes
    }

    /// The ordinal of the selected recipe, or `None` while no recipe is
    /// selected.
    pub fn selected_index(&self) -> (r: Option<usize>)
        ensures
            match r {
                Some(ix) => self.spec_has_selection() && ix == self.spec_selected(),
                None => !self.spec_has_selection(),
            },
    {
        if self.recipe_is_selected {
            Some(self.selected_recipe)
        } else {
            None
        }
    }

    /// Whether any recipe is currently selected.
    pub fn has_selection(&self) -> (r: bool)
        ensures
            r == self.spec_has_selection(),
    {
        self.recipe_is_selected
    }
}

/// A vector of `n` unchecked entries.
fn falses(n: usize) -> (v: Vec<bool>)
    ensures
        v@ == Seq::new(n as nat, |i: int| false),
{
    let mut v: Vec<bool> = Vec::new();
    for i in 0..n
        invariant
            v@ == Seq::new(i as nat, |j: int| false),
    {
        v.push(false);
    }
    v
}

/// Toggling one checklist position twice in succession returns the vector
/// to its original value: flipping the entry at `i` and then flipping the
/// entry at `i` of the result yields the vector the sequence started from.
pub proof fn lemma_toggle_twice(checked: Seq<bool>, i: int)
    requires
        0 <= i < checked.len(),
    ensures
        checked.update(i, !checked[i]).update(
            i,
            !checked.update(i, !checked[i])[i],
        ) == checked,
{
    assert(checked.update(i, !checked[i]).update(i, !checked.update(i, !checked[i])[i])
        =~= checked);
}

impl Default for RecipeBrowserApp {
    /// Returns a session around an empty collection with nothing selected.
    fn default() -> (r: Self)
        ensures
            r.wf(),
            r.spec_recipes()@.len() == 0,
            !r.spec_has_selection(),
    {
        RecipeBrowserApp {
            recipes: Recipes::new(),
            selected_recipe: 0,
            ingredients_checked: Vec::new(),
            methods_checked: Vec::new(),
            recipe_is_selected: false,
        }
    }
}

} // verus!
