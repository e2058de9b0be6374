use random_recipes::filters::same_text;
use random_recipes::filters::EthnicityFilter;
use random_recipes::filters::SeasonFilter;

#[test]
fn season_names_are_lower_case() {
    assert_eq!(SeasonFilter::Any.name(), "any");
    assert_eq!(SeasonFilter::Winter.name(), "winter");
    assert_eq!(SeasonFilter::Spring.name(), "spring");
    assert_eq!(SeasonFilter::Summer.name(), "summer");
    assert_eq!(SeasonFilter::Fall.name(), "fall");
}

#[test]
fn ethnicity_names_are_kebab_case() {
    assert_eq!(EthnicityFilter::Any.name(), "any");
    assert_eq!(EthnicityFilter::American.name(), "american");
    assert_eq!(EthnicityFilter::Chinese.name(), "chinese");
    assert_eq!(EthnicityFilter::EasternEuropean.name(), "eastern-european");
    assert_eq!(EthnicityFilter::Ethiopian.name(), "ethiopian");
    assert_eq!(EthnicityFilter::French.name(), "french");
    assert_eq!(EthnicityFilter::Indian.name(), "indian");
    assert_eq!(EthnicityFilter::Japanese.name(), "japanese");
    assert_eq!(EthnicityFilter::Mediterranean.name(), "mediterranean");
    assert_eq!(EthnicityFilter::Mexican.name(), "mexican");
    assert_eq!(EthnicityFilter::Spanish.name(), "spanish");
}

#[test]
fn to_string_gives_the_name() {
    assert_eq!(SeasonFilter::Summer.to_string(), String::from("summer"));
    assert_eq!(
        EthnicityFilter::EasternEuropean.to_string(),
        String::from("eastern-european")
    );
}

#[test]
fn the_default_tag_is_the_wildcard() {
    assert_eq!(SeasonFilter::default(), SeasonFilter::Any);
    assert_eq!(EthnicityFilter::default(), EthnicityFilter::Any);
}

#[test]
fn season_variants_are_all_listed_in_order() {
    assert_eq!(
        SeasonFilter::value_variants(),
        vec![
            SeasonFilter::Any,
            SeasonFilter::Winter,
            SeasonFilter::Spring,
            SeasonFilter::Summer,
            SeasonFilter::Fall,
        ]
    );
}

#[test]
fn ethnicity_variants_are_all_listed_in_order() {
    assert_eq!(
        EthnicityFilter::value_variants(),
        vec![
            EthnicityFilter::Any,
            EthnicityFilter::American,
            EthnicityFilter::Chinese,
            EthnicityFilter::EasternEuropean,
            EthnicityFilter::Ethiopian,
            EthnicityFilter::French,
            EthnicityFilter::Indian,
            EthnicityFilter::Japanese,
            EthnicityFilter::Mediterranean,
            EthnicityFilter::Mexican,
            EthnicityFilter::Spanish,
        ]
    );
}

#[test]
fn every_season_is_found_by_its_name() {
    for tag in SeasonFilter::value_variants() {
        assert_eq!(SeasonFilter::from_name(tag.name()), Some(tag));
    }
}

#[test]
fn every_ethnicity_is_found_by_its_name() {
    for tag in EthnicityFilter::value_variants() {
        assert_eq!(EthnicityFilter::from_name(tag.name()), Some(tag));
    }
}

#[test]
fn names_do_not_repeat() {
    let seasons = SeasonFilter::value_variants();
    for (i, a) in seasons.iter().enumerate() {
        for b in seasons.iter().skip(i + 1) {
            assert_ne!(a.name(), b.name());
        }
    }
    let ethnicities = EthnicityFilter::value_variants();
    for (i, a) in ethnicities.iter().enumerate() {
        for b in ethnicities.iter().skip(i + 1) {
            assert_ne!(a.name(), b.name());
        }
    }
}

#[test]
fn unknown_names_are_not_tags() {
    assert_eq!(SeasonFilter::from_name("autumn"), None);
    assert_eq!(SeasonFilter::from_name("Winter"), None);
    assert_eq!(SeasonFilter::from_name(""), None);
    assert_eq!(SeasonFilter::from_name("french"), None);
    assert_eq!(EthnicityFilter::from_name("eastern_european"), None);
    assert_eq!(EthnicityFilter::from_name("EasternEuropean"), None);
    assert_eq!(EthnicityFilter::from_name("winter"), None);
    assert_eq!(EthnicityFilter::from_name(" any"), None);
}

#[test]
fn help_explains_each_tag() {
    assert_eq!(SeasonFilter::Any.help(), "Do not filter by season");
    assert_eq!(SeasonFilter::Fall.help(), "Only provide fall recipes");
    assert_eq!(EthnicityFilter::Any.help(), "Do not filter by ethnicity.");
    assert_eq!(
        EthnicityFilter::EasternEuropean.help(),
        "Filter for Eastern European style meals."
    );
    for tag in SeasonFilter::value_variants() {
        assert!(!tag.help().is_empty());
    }
    for tag in EthnicityFilter::value_variants() {
        assert!(!tag.help().is_empty());
    }
}

#[test]
fn same_text_compares_whole_strings() {
    assert!(same_text("any", "any"));
    assert!(same_text("", ""));
    assert!(!same_text("any", "an"));
    assert!(!same_text("any", "Any"));
    assert!(same_text("crème", "crème"));
    assert!(!same_text("creme", "crème"));
}
