//! A recipe as it is loaded, and the rule that tells which files hold one.

use crate::filters::EthnicityFilter;
use crate::filters::SeasonFilter;
use vstd::prelude::*;

verus! {

/// A named cooking procedure with its season and ethnicity tags. The steps
/// are in the order in which they are carried out.
#[derive(Clone, Debug)]
pub struct Recipe {
    pub name: String,
    pub seasons: Vec<SeasonFilter>,
    pub ethnicities: Vec<EthnicityFilter>,
    pub ingredients: Vec<String>,
    pub steps: Vec<String>,
}

/// What a recipe holds, as mathematical values.
pub struct RecipeView {
    pub name: Seq<char>,
    pub seasons: Seq<SeasonFilter>,
    pub ethnicities: Seq<EthnicityFilter>,
    pub ingredients: Seq<Seq<char>>,
    pub steps: Seq<Seq<char>>,
}

impl View for Recipe {
    type V = RecipeView;

    open spec fn view(&self) -> RecipeView {
        RecipeView {
            name: self.name@,
            seasons: self.seasons@,
            ethnicities: self.ethnicities@,
            ingredients: self.ingredients.deep_view(),
            steps: self.steps.deep_view(),
        }
    }
}

impl RecipeView {
    /// The seasons that the recipe declares, without order or repetition.
    pub open spec fn season_tags(self) -> Set<SeasonFilter> {
        self.seasons.to_set()
    }

    /// The ethnicities that the recipe declares, without order or repetition.
    pub open spec fn ethnicity_tags(self) -> Set<EthnicityFilter> {
        self.ethnicities.to_set()
    }
}

/// The longer of the two endings of a recipe file's name.
pub open spec fn long_extension() -> Seq<char> {
    seq!['.', 'y', 'a', 'm', 'l']
}

/// The shorter of the two endings of a recipe file's name.
pub open spec fn short_extension() -> Seq<char> {
    seq!['.', 'y', 'm', 'l']
}

/// A file holds a recipe when its name ends in one of the two extensions.
pub open spec fn spec_is_recipe_file(path: Seq<char>) -> bool {
    long_extension().is_suffix_of(path) || short_extension().is_suffix_of(path)
}

/// Whether `text` ends with `suffix`, character by character.
pub fn ends_with(text: &str, suffix: &str) -> (yes: bool)
    ensures
        yes == suffix@.is_suffix_of(text@),
{
    let n: usize = text.unicode_len();
    let m: usize = suffix.unicode_len();
    if m > n {
        return false;
    }
    let start: usize = n - m;
    let mut i: usize = 0;
    while i < m
        invariant
            i <= m,
            m <= n,
            start == n - m,
            n == text@.len(),
            m == suffix@.len(),
            forall|j: int| 0 <= j < i ==> suffix@[j] == text@[start + j],
        decreases m - i,
    {
        if suffix.get_char(i) != text.get_char(start + i) {
            assert(text@.subrange(start as int, n as int)[i as int] == text@[start + i]);
            return false;
        }
        i += 1;
    }
    assert(suffix@ =~= text@.subrange(start as int, n as int));
    true
}

/// Whether the file at `path` is read as a recipe.
pub fn is_recipe_file(path: &str) -> (yes: bool)
    ensures
        yes == spec_is_recipe_file(path@),
{
    proof {
        reveal_strlit(".yaml");
        reveal_strlit(".yml");
        assert(".yaml"@ =~= long_extension());
        assert(".yml"@ =~= short_extension());
    }
    ends_with(path, ".yaml") || ends_with(path, ".yml")
}

} // verus!
