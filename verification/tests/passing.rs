use random_recipes::filters::EthnicityFilter;
use random_recipes::filters::SeasonFilter;
use random_recipes::predicate::has_ethnicity;
use random_recipes::predicate::has_season;
use random_recipes::predicate::passes_ethnicity_filter;
use random_recipes::predicate::passes_season_filter;
use random_recipes::recipe::Recipe;
use random_recipes::selector::Recipes;

fn recipe(seasons: Vec<SeasonFilter>, ethnicities: Vec<EthnicityFilter>) -> Recipe {
    Recipe {
        name: String::from("stew"),
        seasons,
        ethnicities,
        ingredients: vec![String::from("water"), String::from("salt")],
        steps: vec![String::from("boil"), String::from("season")],
    }
}

#[test]
fn a_shared_tag_on_both_axes_passes() {
    let recipes = Recipes::new(
        vec![SeasonFilter::Winter, SeasonFilter::Fall],
        vec![EthnicityFilter::French],
    );
    let r = recipe(
        vec![SeasonFilter::Fall],
        vec![EthnicityFilter::Spanish, EthnicityFilter::French],
    );
    assert!(recipes.passes_filters(&r));
}

#[test]
fn one_failing_axis_fails_the_recipe() {
    let recipes = Recipes::new(vec![SeasonFilter::Winter], vec![EthnicityFilter::French]);
    let wrong_season = recipe(vec![SeasonFilter::Summer], vec![EthnicityFilter::French]);
    let wrong_ethnicity = recipe(vec![SeasonFilter::Winter], vec![EthnicityFilter::Mexican]);
    let wrong_both = recipe(vec![SeasonFilter::Summer], vec![EthnicityFilter::Mexican]);
    assert!(!recipes.passes_filters(&wrong_season));
    assert!(!recipes.passes_filters(&wrong_ethnicity));
    assert!(!recipes.passes_filters(&wrong_both));
}

#[test]
fn the_wildcard_passes_an_axis_whatever_the_tags() {
    let recipes = Recipes::new(vec![SeasonFilter::Any], vec![EthnicityFilter::Any]);
    for season in SeasonFilter::value_variants() {
        for ethnicity in EthnicityFilter::value_variants() {
            assert!(recipes.passes_filters(&recipe(vec![season], vec![ethnicity])));
        }
    }
    assert!(recipes.passes_filters(&recipe(vec![], vec![])));
}

#[test]
fn the_wildcard_on_one_axis_leaves_the_other_to_decide() {
    let any_season = Recipes::new(vec![SeasonFilter::Any], vec![EthnicityFilter::Indian]);
    assert!(any_season.passes_filters(&recipe(vec![SeasonFilter::Spring], vec![EthnicityFilter::Indian])));
    assert!(!any_season.passes_filters(&recipe(vec![SeasonFilter::Spring], vec![EthnicityFilter::Chinese])));
    let any_ethnicity = Recipes::new(vec![SeasonFilter::Spring], vec![EthnicityFilter::Any]);
    assert!(any_ethnicity.passes_filters(&recipe(vec![SeasonFilter::Spring], vec![EthnicityFilter::Chinese])));
    assert!(!any_ethnicity.passes_filters(&recipe(vec![SeasonFilter::Fall], vec![EthnicityFilter::Chinese])));
}

#[test]
fn the_wildcard_beside_other_tags_still_passes_everything() {
    let recipes = Recipes::new(
        vec![SeasonFilter::Winter, SeasonFilter::Any],
        vec![EthnicityFilter::Any, EthnicityFilter::French],
    );
    assert!(recipes.passes_filters(&recipe(vec![SeasonFilter::Summer], vec![EthnicityFilter::Mexican])));
}

#[test]
fn an_empty_season_filter_passes_nothing() {
    let recipes = Recipes::new(vec![], vec![EthnicityFilter::Any]);
    for season in SeasonFilter::value_variants() {
        assert!(!recipes.passes_filters(&recipe(vec![season], vec![EthnicityFilter::French])));
    }
    assert!(!recipes.passes_filters(&recipe(SeasonFilter::value_variants(), vec![EthnicityFilter::French])));
}

#[test]
fn an_empty_ethnicity_filter_passes_nothing() {
    let recipes = Recipes::new(vec![SeasonFilter::Any], vec![]);
    for ethnicity in EthnicityFilter::value_variants() {
        assert!(!recipes.passes_filters(&recipe(vec![SeasonFilter::Winter], vec![ethnicity])));
    }
}

#[test]
fn a_recipe_tagged_with_the_wildcard_is_not_passed_by_it() {
    let recipes = Recipes::new(vec![SeasonFilter::Winter], vec![EthnicityFilter::French]);
    let r = recipe(vec![SeasonFilter::Any], vec![EthnicityFilter::French]);
    assert!(!recipes.passes_filters(&r));
    let r = recipe(vec![SeasonFilter::Winter], vec![EthnicityFilter::Any]);
    assert!(!recipes.passes_filters(&r));
}

#[test]
fn a_recipe_without_tags_passes_under_wildcards_only() {
    let narrow = Recipes::new(vec![SeasonFilter::Winter], vec![EthnicityFilter::French]);
    assert!(!narrow.passes_filters(&recipe(vec![], vec![])));
    let wide = Recipes::new(vec![SeasonFilter::Any], vec![EthnicityFilter::Any]);
    assert!(wide.passes_filters(&recipe(vec![], vec![])));
}

#[test]
fn order_and_repetition_of_tags_do_not_matter() {
    let a = Recipes::new(
        vec![SeasonFilter::Winter, SeasonFilter::Fall],
        vec![EthnicityFilter::French, EthnicityFilter::Indian],
    );
    let b = Recipes::new(
        vec![SeasonFilter::Fall, SeasonFilter::Winter, SeasonFilter::Fall],
        vec![EthnicityFilter::Indian, EthnicityFilter::Indian, EthnicityFilter::French],
    );
    for season in SeasonFilter::value_variants() {
        for ethnicity in EthnicityFilter::value_variants() {
            let once = recipe(vec![season, SeasonFilter::Spring], vec![ethnicity]);
            let twice = recipe(
                vec![SeasonFilter::Spring, season, season],
                vec![ethnicity, ethnicity],
            );
            let expected = (season == SeasonFilter::Winter || season == SeasonFilter::Fall)
                && (ethnicity == EthnicityFilter::French || ethnicity == EthnicityFilter::Indian);
            assert_eq!(a.passes_filters(&once), expected);
            assert_eq!(a.passes_filters(&twice), expected);
            assert_eq!(b.passes_filters(&once), expected);
            assert_eq!(b.passes_filters(&twice), expected);
        }
    }
}

#[test]
fn asking_twice_gives_the_same_answer() {
    let recipes = Recipes::new(vec![SeasonFilter::Summer], vec![EthnicityFilter::Mexican]);
    let r = recipe(vec![SeasonFilter::Summer], vec![EthnicityFilter::Mexican]);
    let first = recipes.passes_filters(&r);
    let _ = recipes.randomly_select_recipes(2);
    let second = recipes.passes_filters(&r);
    assert!(first);
    assert_eq!(first, second);
}

#[test]
fn membership_of_a_tag() {
    let seasons = vec![SeasonFilter::Winter, SeasonFilter::Fall];
    assert!(has_season(&seasons, SeasonFilter::Fall));
    assert!(!has_season(&seasons, SeasonFilter::Any));
    assert!(!has_season(&vec![], SeasonFilter::Any));
    let ethnicities = vec![EthnicityFilter::Japanese];
    assert!(has_ethnicity(&ethnicities, EthnicityFilter::Japanese));
    assert!(!has_ethnicity(&ethnicities, EthnicityFilter::Chinese));
    assert!(!has_ethnicity(&vec![], EthnicityFilter::Any));
}

#[test]
fn each_axis_by_itself() {
    let filter = vec![SeasonFilter::Winter];
    assert!(passes_season_filter(&filter, &vec![SeasonFilter::Summer, SeasonFilter::Winter]));
    assert!(!passes_season_filter(&filter, &vec![SeasonFilter::Summer]));
    assert!(!passes_season_filter(&vec![], &vec![SeasonFilter::Summer]));
    assert!(passes_season_filter(&vec![SeasonFilter::Any], &vec![]));
    let filter = vec![EthnicityFilter::Ethiopian, EthnicityFilter::Spanish];
    assert!(passes_ethnicity_filter(&filter, &vec![EthnicityFilter::Spanish]));
    assert!(!passes_ethnicity_filter(&filter, &vec![EthnicityFilter::American]));
    assert!(!passes_ethnicity_filter(&vec![], &vec![EthnicityFilter::American]));
    assert!(passes_ethnicity_filter(&vec![EthnicityFilter::Any], &vec![]));
}
