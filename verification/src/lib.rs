//! Picks recipes at random among those that match a season filter and an
//! ethnicity filter.
//!
//! A [`selector::Recipes`] holds the loaded recipes, each under the path it was
//! read from, and the two filter sets. A recipe is a candidate when it passes
//! both filters; a selection is a list of distinct candidates.

pub mod args;
pub mod filters;
pub mod predicate;
pub mod recipe;
pub mod sampling;
pub mod selector;
