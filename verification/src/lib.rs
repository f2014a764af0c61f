//! A verified recipe-browser core: a store of titled recipes loaded from a
//! JSON-like document, and a selection/checklist controller that keeps
//! per-ingredient and per-method check state sized to the selected recipe.
//!
//! Window construction, rendering, HTTP fetching and persistence are
//! presentation concerns that live outside this crate; the crate only
//! parses, normalizes and tracks state, and proves that it does so.

mod error;
mod json;
mod recipe;
mod selection;

pub use error::LoadError;
pub use error::StateError;
pub use json::JsonValue;
pub use recipe::Recipe;
pub use recipe::RecipeModel;
pub use recipe::Recipes;
pub use recipe::strip_quotes;
pub use selection::RecipeBrowserApp;
