//! The two closed sets of tags by which recipes are filtered, and the
//! spelling of each tag.

use vstd::prelude::*;

verus! {

/// Whether two string slices hold the same text.
pub fn same_text(a: &str, b: &str) -> (same: bool)
    ensures
        same == (a@ == b@),
{
    let left = a.to_owned();
    let right = b.to_owned();
    left == right
}

/// The season a recipe is meant for. `Any` is the wildcard of a filter.
#[derive(Clone, Copy, Debug, PartialEq, Eq, Hash, Structural)]
pub enum SeasonFilter {
    Any,
    Winter,
    Spring,
    Summer,
    Fall,
}

impl Default for SeasonFilter {
    fn default() -> (tag: Self)
        ensures
            tag == SeasonFilter::Any,
    {
        SeasonFilter::Any
    }
}

impl SeasonFilter {
    /// The spelling of the tag, as it is written in recipes and on the command line.
    pub open spec fn spec_name(self) -> Seq<char> {
        match self {
            SeasonFilter::Any => "any"@,
            SeasonFilter::Winter => "winter"@,
            SeasonFilter::Spring => "spring"@,
            SeasonFilter::Summer => "summer"@,
            SeasonFilter::Fall => "fall"@,
        }
    }

    /// The sentence that explains the tag to a user.
    pub open spec fn spec_help(self) -> Seq<char> {
        match self {
            SeasonFilter::Any => "Do not filter by season"@,
            SeasonFilter::Winter => "Only provide winter recipes"@,
            SeasonFilter::Spring => "Only provide spring recipes"@,
            SeasonFilter::Summer => "Only provide summer recipes"@,
            SeasonFilter::Fall => "Only provide fall recipes"@,
        }
    }

    /// Every tag, in the order of declaration.
    pub open spec fn spec_variants() -> Seq<SeasonFilter> {
        seq![
            SeasonFilter::Any,
            SeasonFilter::Winter,
            SeasonFilter::Spring,
            SeasonFilter::Summer,
            SeasonFilter::Fall,
        ]
    }

    /// The spelling of the tag.
    pub fn name(&self) -> (text: &'static str)
        ensures
            text@ == self.spec_name(),
    {
        match self {
            SeasonFilter::Any => "any",
            SeasonFilter::Winter => "winter",
            SeasonFilter::Spring => "spring",
            SeasonFilter::Summer => "summer",
            SeasonFilter::Fall => "fall",
        }
    }

    /// The sentence that explains the tag to a user.
    pub fn help(&self) -> (text: &'static str)
        ensures
            text@ == self.spec_help(),
    {
        match self {
            SeasonFilter::Any => "Do not filter by season",
            SeasonFilter::Winter => "Only provide winter recipes",
            SeasonFilter::Spring => "Only provide spring recipes",
            SeasonFilter::Summer => "Only provide summer recipes",
            SeasonFilter::Fall => "Only provide fall recipes",
        }
    }

    /// The spelling of the tag, as an owned string.
    pub fn to_string(&self) -> (text: String)
        ensures
            text@ == self.spec_name(),
    {
        self.name().to_owned()
    }

    /// Every tag, in the order of declaration.
    pub fn value_variants() -> (all: Vec<SeasonFilter>)
        ensures
            all@ == Self::spec_variants(),
    {
        let all = vec![
            SeasonFilter::Any,
            SeasonFilter::Winter,
            SeasonFilter::Spring,
            SeasonFilter::Summer,
            SeasonFilter::Fall,
        ];
        assert(all@ =~= Self::spec_variants());
        all
    }

    /// The tag that is spelled `name`, if there is one. The spelling is exact:
    /// lower case, words joined by a hyphen.
    pub fn from_name(name: &str) -> (found: Option<SeasonFilter>)
        ensures
            match found {
                Some(tag) => tag.spec_name() == name@,
                None => forall|tag: SeasonFilter| tag.spec_name() != name@,
            },
    {
        if same_text(name, "any") {
            Some(SeasonFilter::Any)
        } else if same_text(name, "winter") {
            Some(SeasonFilter::Winter)
        } else if same_text(name, "spring") {
            Some(SeasonFilter::Spring)
        } else if same_text(name, "summer") {
            Some(SeasonFilter::Summer)
        } else if same_text(name, "fall") {
            Some(SeasonFilter::Fall)
        } else {
            None
        }
    }
}

/// Two season tags with the same spelling are the same tag.
pub proof fn lemma_season_names_distinct(a: SeasonFilter, b: SeasonFilter)
    requires
        a.spec_name() == b.spec_name(),
    ensures
        a == b,
{
    reveal_strlit("any");
    reveal_strlit("winter");
    reveal_strlit("spring");
    reveal_strlit("summer");
    reveal_strlit("fall");
    match a {
        SeasonFilter::Any => {
            assert("any"@.len() == 3 && "any"@[0] == 'a' && "any"@[1] == 'n');
        },
        SeasonFilter::Winter => {
            assert("winter"@.len() == 6 && "winter"@[0] == 'w' && "winter"@[1] == 'i');
        },
        SeasonFilter::Spring => {
            assert("spring"@.len() == 6 && "spring"@[0] == 's' && "spring"@[1] == 'p');
        },
        SeasonFilter::Summer => {
            assert("summer"@.len() == 6 && "summer"@[0] == 's' && "summer"@[1] == 'u');
        },
        SeasonFilter::Fall => {
            assert("fall"@.len() == 4 && "fall"@[0] == 'f' && "fall"@[1] == 'a');
        },
    }
    match b {
        SeasonFilter::Any => {
            assert("any"@.len() == 3 && "any"@[0] == 'a' && "any"@[1] == 'n');
        },
        SeasonFilter::Winter => {
            assert("winter"@.len() == 6 && "winter"@[0] == 'w' && "winter"@[1] == 'i');
        },
        SeasonFilter::Spring => {
            assert("spring"@.len() == 6 && "spring"@[0] == 's' && "spring"@[1] == 'p');
        },
        SeasonFilter::Summer => {
            assert("summer"@.len() == 6 && "summer"@[0] == 's' && "summer"@[1] == 'u');
        },
        SeasonFilter::Fall => {
            assert("fall"@.len() == 4 && "fall"@[0] == 'f' && "fall"@[1] == 'a');
        },
    }
}

/// Every season tag occurs in the list of all tags, and only once.
pub proof fn lemma_season_variants_complete(tag: SeasonFilter)
    ensures
        SeasonFilter::spec_variants().contains(tag),
        SeasonFilter::spec_variants().no_duplicates(),
{
    let all = SeasonFilter::spec_variants();
    assert(all[0] == SeasonFilter::Any);
    assert(all[1] == SeasonFilter::Winter);
    assert(all[2] == SeasonFilter::Spring);
    assert(all[3] == SeasonFilter::Summer);
    assert(all[4] == SeasonFilter::Fall);
}

/// The cuisine a recipe belongs to. `Any` is the wildcard of a filter.
#[derive(Clone, Copy, Debug, PartialEq, Eq, Hash, Structural)]
pub enum EthnicityFilter {
    Any,
    American,
    Chinese,
    EasternEuropean,
    Ethiopian,
    French,
    Indian,
    Japanese,
    Mediterranean,
    Mexican,
    Spanish,
}

impl Default for EthnicityFilter {
    fn default() -> (tag: Self)
        ensures
            tag == EthnicityFilter::Any,
    {
        EthnicityFilter::Any
    }
}

impl EthnicityFilter {
    /// The spelling of the tag, as it is written in recipes and on the command line.
    pub open spec fn spec_name(self) -> Seq<char> {
        match self {
            EthnicityFilter::Any => "any"@,
            EthnicityFilter::American => "american"@,
            EthnicityFilter::Chinese => "chinese"@,
            EthnicityFilter::EasternEuropean => "eastern-european"@,
            EthnicityFilter::Ethiopian => "ethiopian"@,
            EthnicityFilter::French => "french"@,
            EthnicityFilter::Indian => "indian"@,
            EthnicityFilter::Japanese => "japanese"@,
            EthnicityFilter::Mediterranean => "mediterranean"@,
            EthnicityFilter::Mexican => "mexican"@,
            EthnicityFilter::Spanish => "spanish"@,
        }
    }

    /// The sentence that explains the tag to a user.
    pub open spec fn spec_help(self) -> Seq<char> {
        match self {
            EthnicityFilter::Any => "Do not filter by ethnicity."@,
            EthnicityFilter::American => "Filter for American style meals."@,
            EthnicityFilter::Chinese => "Filter for Chinese style meals."@,
            EthnicityFilter::EasternEuropean => "Filter for Eastern European style meals."@,
            EthnicityFilter::Ethiopian => "Filter for Ethiopian style meals."@,
            EthnicityFilter::French => "Filter for French style meals."@,
            EthnicityFilter::Indian => "Filter for Indian style meals."@,
            EthnicityFilter::Japanese => "Filter for Japanese style meals."@,
            EthnicityFilter::Mediterranean => "Filter for Mediterranean style meals."@,
            EthnicityFilter::Mexican => "Filter for Mexican style meals."@,
            EthnicityFilter::Spanish => "Filter for Spanish style meals."@,
        }
    }

    /// Every tag, in the order of declaration.
    pub open spec fn spec_variants() -> Seq<EthnicityFilter> {
        seq![
            EthnicityFilter::Any,
            EthnicityFilter::American,
            EthnicityFilter::Chinese,
            EthnicityFilter::EasternEuropean,
            EthnicityFilter::Ethiopian,
            EthnicityFilter::French,
            EthnicityFilter::Indian,
            EthnicityFilter::Japanese,
            EthnicityFilter::Mediterranean,
            EthnicityFilter::Mexican,
            EthnicityFilter::Spanish,
        ]
    }

    /// The spelling of the tag.
    pub fn name(&self) -> (text: &'static str)
        ensures
            text@ == self.spec_name(),
    {
        match self {
            EthnicityFilter::Any => "any",
            EthnicityFilter::American => "american",
            EthnicityFilter::Chinese => "chinese",
            EthnicityFilter::EasternEuropean => "eastern-european",
            EthnicityFilter::Ethiopian => "ethiopian",
            EthnicityFilter::French => "french",
            EthnicityFilter::Indian => "indian",
            EthnicityFilter::Japanese => "japanese",
            EthnicityFilter::Mediterranean => "mediterranean",
            EthnicityFilter::Mexican => "mexican",
            EthnicityFilter::Spanish => "spanish",
        }
    }

    /// The sentence that explains the tag to a user.
    pub fn help(&self) -> (text: &'static str)
        ensures
            text@ == self.spec_help(),
    {
        match self {
            EthnicityFilter::Any => "Do not filter by ethnicity.",
            EthnicityFilter::American => "Filter for American style meals.",
            EthnicityFilter::Chinese => "Filter for Chinese style meals.",
            EthnicityFilter::EasternEuropean => "Filter for Eastern European style meals.",
            EthnicityFilter::Ethiopian => "Filter for Ethiopian style meals.",
            EthnicityFilter::French => "Filter for French style meals.",
            EthnicityFilter::Indian => "Filter for Indian style meals.",
            EthnicityFilter::Japanese => "Filter for Japanese style meals.",
            EthnicityFilter::Mediterranean => "Filter for Mediterranean style meals.",
            EthnicityFilter::Mexican => "Filter for Mexican style meals.",
            EthnicityFilter::Spanish => "Filter for Spanish style meals.",
        }
    }

    /// The spelling of the tag, as an owned string.
    pub fn to_string(&self) -> (text: String)
        ensures
            text@ == self.spec_name(),
    {
        self.name().to_owned()
    }

    /// Every tag, in the order of declaration.
    pub fn value_variants() -> (all: Vec<EthnicityFilter>)
        ensures
            all@ == Self::spec_variants(),
    {
        let all = vec![
            EthnicityFilter::Any,
            EthnicityFilter::American,
            EthnicityFilter::Chinese,
            EthnicityFilter::EasternEuropean,
            EthnicityFilter::Ethiopian,
            EthnicityFilter::French,
            EthnicityFilter::Indian,
            EthnicityFilter::Japanese,
            EthnicityFilter::Mediterranean,
            EthnicityFilter::Mexican,
            EthnicityFilter::Spanish,
        ];
        assert(all@ =~= Self::spec_variants());
        all
    }

    /// The tag that is spelled `name`, if there is one. The spelling is exact:
    /// lower case, words joined by a hyphen.
    pub fn from_name(name: &str) -> (found: Option<EthnicityFilter>)
        ensures
            match found {
                Some(tag) => tag.spec_name() == name@,
                None => forall|tag: EthnicityFilter| tag.spec_name() != name@,
            },
    {
        if same_text(name, "any") {
            Some(EthnicityFilter::Any)
        } else if same_text(name, "american") {
            Some(EthnicityFilter::American)
        } else if same_text(name, "chinese") {
            Some(EthnicityFilter::Chinese)
        } else if same_text(name, "eastern-european") {
            Some(EthnicityFilter::EasternEuropean)
        } else if same_text(name, "ethiopian") {
            Some(EthnicityFilter::Ethiopian)
        } else if same_text(name, "french") {
            Some(EthnicityFilter::French)
        } else if same_text(name, "indian") {
            Some(EthnicityFilter::Indian)
        } else if same_text(name, "japanese") {
            Some(EthnicityFilter::Japanese)
        } else if same_text(name, "mediterranean") {
            Some(EthnicityFilter::Mediterranean)
        } else if same_text(name, "mexican") {
            Some(EthnicityFilter::Mexican)
        } else if same_text(name, "spanish") {
            Some(EthnicityFilter::Spanish)
        } else {
            None
        }
    }
}

/// Two ethnicity tags with the same spelling are the same tag.
pub proof fn lemma_ethnicity_names_distinct(a: EthnicityFilter, b: EthnicityFilter)
    requires
        a.spec_name() == b.spec_name(),
    ensures
        a == b,
{
    reveal_strlit("any");
    reveal_strlit("american");
    reveal_strlit("chinese");
    reveal_strlit("eastern-european");
    reveal_strlit("ethiopian");
    reveal_strlit("french");
    reveal_strlit("indian");
    reveal_strlit("japanese");
    reveal_strlit("mediterranean");
    reveal_strlit("mexican");
    reveal_strlit("spanish");
    match a {
        EthnicityFilter::Any => {
            assert("any"@.len() == 3 && "any"@[0] == 'a' && "any"@[1] == 'n');
        },
        EthnicityFilter::American => {
            assert("american"@.len() == 8 && "american"@[0] == 'a' && "american"@[1] == 'm');
        },
        EthnicityFilter::Chinese => {
            assert("chinese"@.len() == 7 && "chinese"@[0] == 'c' && "chinese"@[1] == 'h');
        },
        EthnicityFilter::EasternEuropean => {
            assert("eastern-european"@.len() == 16 && "eastern-european"@[0] == 'e' && "eastern-european"@[1] == 'a');
        },
        EthnicityFilter::Ethiopian => {
            assert("ethiopian"@.len() == 9 && "ethiopian"@[0] == 'e' && "ethiopian"@[1] == 't');
        },
        EthnicityFilter::French => {
            assert("french"@.len() == 6 && "french"@[0] == 'f' && "french"@[1] == 'r');
        },
        EthnicityFilter::Indian => {
            assert("indian"@.len() == 6 && "indian"@[0] == 'i' && "indian"@[1] == 'n');
        },
        EthnicityFilter::Japanese => {
            assert("japanese"@.len() == 8 && "japanese"@[0] == 'j' && "japanese"@[1] == 'a');
        },
        EthnicityFilter::Mediterranean => {
            assert("mediterranean"@.len() == 13 && "mediterranean"@[0] == 'm' && "mediterranean"@[1] == 'e');
        },
        EthnicityFilter::Mexican => {
            assert("mexican"@.len() == 7 && "mexican"@[0] == 'm' && "mexican"@[1] == 'e');
        },
        EthnicityFilter::Spanish => {
            assert("spanish"@.len() == 7 && "spanish"@[0] == 's' && "spanish"@[1] == 'p');
        },
    }
    match b {
        EthnicityFilter::Any => {
            assert("any"@.len() == 3 && "any"@[0] == 'a' && "any"@[1] == 'n');
        },
        EthnicityFilter::American => {
            assert("american"@.len() == 8 && "american"@[0] == 'a' && "american"@[1] == 'm');
        },
        EthnicityFilter::Chinese => {
            assert("chinese"@.len() == 7 && "chinese"@[0] == 'c' && "chinese"@[1] == 'h');
        },
        EthnicityFilter::EasternEuropean => {
            assert("eastern-european"@.len() == 16 && "eastern-european"@[0] == 'e' && "eastern-european"@[1] == 'a');
        },
        EthnicityFilter::Ethiopian => {
            assert("ethiopian"@.len() == 9 && "ethiopian"@[0] == 'e' && "ethiopian"@[1] == 't');
        },
        EthnicityFilter::French => {
            assert("french"@.len() == 6 && "french"@[0] == 'f' && "french"@[1] == 'r');
        },
        EthnicityFilter::Indian => {
            assert("indian"@.len() == 6 && "indian"@[0] == 'i' && "indian"@[1] == 'n');
        },
        EthnicityFilter::Japanese => {
            assert("japanese"@.len() == 8 && "japanese"@[0] == 'j' && "japanese"@[1] == 'a');
        },
        EthnicityFilter::Mediterranean => {
            assert("mediterranean"@.len() == 13 && "mediterranean"@[0] == 'm' && "mediterranean"@[1] == 'e');
        },
        EthnicityFilter::Mexican => {
            assert("mexican"@.len() == 7 && "mexican"@[0] == 'm' && "mexican"@[1] == 'e');
        },
        EthnicityFilter::Spanish => {
            assert("spanish"@.len() == 7 && "spanish"@[0] == 's' && "spanish"@[1] == 'p');
        },
    }
}

/// Every ethnicity tag occurs in the list of all tags, and only once.
pub proof fn lemma_ethnicity_variants_complete(tag: EthnicityFilter)
    ensures
        EthnicityFilter::spec_variants().contains(tag),
        EthnicityFilter::spec_variants().no_duplicates(),
{
    let all = EthnicityFilter::spec_variants();
    assert(all[0] == EthnicityFilter::Any);
    assert(all[1] == EthnicityFilter::American);
    assert(all[2] == EthnicityFilter::Chinese);
    assert(all[3] == EthnicityFilter::EasternEuropean);
    assert(all[4] == EthnicityFilter::Ethiopian);
    assert(all[5] == EthnicityFilter::French);
    assert(all[6] == EthnicityFilter::Indian);
    assert(all[7] == EthnicityFilter::Japanese);
    assert(all[8] == EthnicityFilter::Mediterranean);
    assert(all[9] == EthnicityFilter::Mexican);
    assert(all[10] == EthnicityFilter::Spanish);
}

} // verus!
