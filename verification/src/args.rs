//! What a run is asked for.

use crate::filters::EthnicityFilter;
use crate::filters::SeasonFilter;
use vstd::prelude::*;

verus! {

/// The number of recipes that a run selects where none is asked for.
pub const DEFAULT_NUM_RECIPES: usize = 3;

/// The arguments of a run: the tags to filter by, where the recipes lie, and
/// how many of them to select.
///
/// A filter that is left empty lets no recipe pass; to ask for every season,
/// or for every ethnicity, is to name the wildcard.
#[derive(Clone, Debug)]
pub struct GetRandomRecipes {
    /// The seasonal recipe types to filter to.
    pub season: Vec<SeasonFilter>,
    /// The ethnicities of recipe types to filter to.
    pub ethnicity: Vec<EthnicityFilter>,
    /// The directory that holds the recipes.
    pub recipes_dir: String,
    /// The number of recipes to return.
    pub num_recipes: usize,
}

} // verus!
