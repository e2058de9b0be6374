//! The rule by which a recipe passes a filter.
//!
//! A filter has two axes, season and ethnicity. An axis passes when the filter
//! set holds the wildcard, or when the recipe declares a tag that the filter
//! set holds too. A filter set with nothing in it holds neither, so nothing
//! passes it: to leave a filter out is not to ask for everything.

use crate::filters::EthnicityFilter;
use crate::filters::SeasonFilter;
use crate::recipe::RecipeView;
use vstd::prelude::*;

verus! {

/// One axis of the filter: the wildcard is asked for, or one of the tags is.
pub open spec fn axis_passes<T>(filter: Set<T>, wildcard: T, tags: Set<T>) -> bool {
    filter.contains(wildcard) || exists|tag: T| #[trigger] tags.contains(tag) && filter.contains(tag)
}

/// The season axis of the filter.
pub open spec fn season_passes(seasons: Set<SeasonFilter>, recipe: RecipeView) -> bool {
    axis_passes(seasons, SeasonFilter::Any, recipe.season_tags())
}

/// The ethnicity axis of the filter.
pub open spec fn ethnicity_passes(ethnicities: Set<EthnicityFilter>, recipe: RecipeView) -> bool {
    axis_passes(ethnicities, EthnicityFilter::Any, recipe.ethnicity_tags())
}

/// A recipe passes when it passes on both axes.
pub open spec fn passes(
    seasons: Set<SeasonFilter>,
    ethnicities: Set<EthnicityFilter>,
    recipe: RecipeView,
) -> bool {
    ethnicity_passes(ethnicities, recipe) && season_passes(seasons, recipe)
}

/// Whether `tag` is among `tags`.
pub fn has_season(tags: &Vec<SeasonFilter>, tag: SeasonFilter) -> (found: bool)
    ensures
        found == tags@.to_set().contains(tag),
{
    let mut i: usize = 0;
    while i < tags.len()
        invariant
            i <= tags@.len(),
            forall|k: int| 0 <= k < i ==> tags@[k] != tag,
        decreases tags@.len() - i,
    {
        if tags[i] == tag {
            assert(tags@.contains(tag));
            return true;
        }
        i += 1;
    }
    false
}

/// Whether `tag` is among `tags`.
pub fn has_ethnicity(tags: &Vec<EthnicityFilter>, tag: EthnicityFilter) -> (found: bool)
    ensures
        found == tags@.to_set().contains(tag),
{
    let mut i: usize = 0;
    while i < tags.len()
        invariant
            i <= tags@.len(),
            forall|k: int| 0 <= k < i ==> tags@[k] != tag,
        decreases tags@.len() - i,
    {
        if tags[i] == tag {
            assert(tags@.contains(tag));
            return true;
        }
        i += 1;
    }
    false
}

/// Whether a recipe with the season tags `tags` passes the season filter
/// `filter`.
pub fn passes_season_filter(filter: &Vec<SeasonFilter>, tags: &Vec<SeasonFilter>) -> (ok: bool)
    ensures
        ok == axis_passes(filter@.to_set(), SeasonFilter::Any, tags@.to_set()),
{
    if has_season(filter, SeasonFilter::Any) {
        return true;
    }
    let mut i: usize = 0;
    while i < tags.len()
        invariant
            i <= tags@.len(),
            forall|k: int| 0 <= k < i ==> !filter@.to_set().contains(#[trigger] tags@[k]),
        decreases tags@.len() - i,
    {
        if has_season(filter, tags[i]) {
            assert(tags@.to_set().contains(tags@[i as int]));
            return true;
        }
        i += 1;
    }
    false
}

/// Whether a recipe with the ethnicity tags `tags` passes the ethnicity
/// filter `filter`.
pub fn passes_ethnicity_filter(filter: &Vec<EthnicityFilter>, tags: &Vec<EthnicityFilter>) -> (ok:
    bool)
    ensures
        ok == axis_passes(filter@.to_set(), EthnicityFilter::Any, tags@.to_set()),
{
    if has_ethnicity(filter, EthnicityFilter::Any) {
        return true;
    }
    let mut i: usize = 0;
    while i < tags.len()
        invariant
            i <= tags@.len(),
            forall|k: int| 0 <= k < i ==> !filter@.to_set().contains(#[trigger] tags@[k]),
        decreases tags@.len() - i,
    {
        if has_ethnicity(filter, tags[i]) {
            assert(tags@.to_set().contains(tags@[i as int]));
            return true;
        }
        i += 1;
    }
    false
}

/// Whether a recipe passes depends on nothing but the two filter sets and the
/// two sets of tags that the recipe declares: two recipes with the same tags,
/// in whatever order and however often they are written, fare alike.
pub proof fn lemma_passes_depends_on_tags_only(
    seasons: Set<SeasonFilter>,
    ethnicities: Set<EthnicityFilter>,
    a: RecipeView,
    b: RecipeView,
)
    requires
        a.season_tags() == b.season_tags(),
        a.ethnicity_tags() == b.ethnicity_tags(),
    ensures
        passes(seasons, ethnicities, a) == passes(seasons, ethnicities, b),
{
}

/// A filter set that holds the wildcard passes every recipe on its axis,
/// whatever the recipe's tags are.
pub proof fn lemma_wildcard_passes_axis<T>(filter: Set<T>, wildcard: T, tags: Set<T>)
    requires
        filter.contains(wildcard),
    ensures
        axis_passes(filter, wildcard, tags),
{
}

/// With the wildcard in the season filter, the ethnicity axis alone decides;
/// with the wildcard in the ethnicity filter, the season axis alone decides.
pub proof fn lemma_wildcard_leaves_other_axis(
    seasons: Set<SeasonFilter>,
    ethnicities: Set<EthnicityFilter>,
    recipe: RecipeView,
)
    ensures
        seasons.contains(SeasonFilter::Any) ==> passes(seasons, ethnicities, recipe)
            == ethnicity_passes(ethnicities, recipe),
        ethnicities.contains(EthnicityFilter::Any) ==> passes(seasons, ethnicities, recipe)
            == season_passes(seasons, recipe),
{
}

/// An empty filter set passes no recipe on its axis.
pub proof fn lemma_empty_filter_fails_axis<T>(wildcard: T, tags: Set<T>)
    ensures
        !axis_passes(Set::<T>::empty(), wildcard, tags),
{
}

/// A recipe passes no filter of which one set is empty.
pub proof fn lemma_empty_filter_passes_nothing(
    seasons: Set<SeasonFilter>,
    ethnicities: Set<EthnicityFilter>,
    recipe: RecipeView,
)
    requires
        seasons =~= Set::<SeasonFilter>::empty() || ethnicities =~= Set::<EthnicityFilter>::empty(),
    ensures
        !passes(seasons, ethnicities, recipe),
{
}

} // verus!
