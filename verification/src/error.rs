//! The error taxonomy of the recipe core.

use vstd::prelude::*;

verus! {

/// Why a document could not be loaded into a recipe collection.
#[derive(Debug, PartialEq, Eq, Structural, Clone, Copy)]
pub enum LoadError {
    /// The document is not shaped like a collection of recipe entries.
    Malformed,
    /// An entry lacks a usable title: absent, not a string, or empty
    /// after normalization.
    MissingTitle,
}

/// Why a selection or checklist operation could not be carried out.
#[derive(Debug, PartialEq, Eq, Structural, Clone, Copy)]
pub enum StateError {
    /// An ordinal or item position lies out of range.
    IndexError,
    /// A checklist operation was attempted while no recipe is selected.
    NotSelected,
}

} // verus!
