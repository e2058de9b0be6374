//! The loaded recipes with the two filter sets, and the selection among those
//! that pass.

use crate::args::GetRandomRecipes;
use crate::filters::EthnicityFilter;
use crate::filters::SeasonFilter;
use crate::predicate::has_ethnicity;
use crate::predicate::has_season;
use crate::predicate::passes;
use crate::predicate::passes_ethnicity_filter;
use crate::predicate::passes_season_filter;
use crate::recipe::Recipe;
use crate::recipe::is_recipe_file;
use crate::recipe::spec_is_recipe_file;
use crate::recipe::RecipeView;
use crate::sampling::choose_positions;
use crate::sampling::distinct_positions;
use crate::sampling::lemma_pick_all;
use crate::sampling::lemma_pick_no_duplicates;
use crate::sampling::lemma_pick_subset;
use crate::sampling::pick;
use crate::sampling::spec_pick;
use vstd::prelude::*;

verus! {

/// A recipe with the path it was loaded from.
pub type Entry = (Seq<char>, RecipeView);

/// The entries that a list of paths and recipes stands for.
pub open spec fn entries_of(files: Seq<(String, Recipe)>) -> Seq<Entry> {
    Seq::new(files.len(), |i: int| (files[i].0@, files[i].1@))
}

/// The test that picks the entries whose recipe passes the filter.
pub open spec fn is_candidate(
    seasons: Set<SeasonFilter>,
    ethnicities: Set<EthnicityFilter>,
) -> spec_fn(Entry) -> bool {
    |e: Entry| passes(seasons, ethnicities, e.1)
}

/// The function that takes an entry to its path.
pub open spec fn path_of() -> spec_fn(Entry) -> Seq<char> {
    |e: Entry| e.0
}

/// The paths of the entries, in their order.
pub open spec fn paths_of(entries: Seq<Entry>) -> Seq<Seq<char>> {
    entries.map_values(path_of())
}

/// The paths of the entries whose recipe passes the filter, in the order of
/// the entries.
pub open spec fn candidates_of(
    entries: Seq<Entry>,
    seasons: Set<SeasonFilter>,
    ethnicities: Set<EthnicityFilter>,
) -> Seq<Seq<char>> {
    paths_of(entries.filter(is_candidate(seasons, ethnicities)))
}

/// The recipe that the entries hold under `path`, if they hold one.
pub open spec fn spec_get(entries: Seq<Entry>, path: Seq<char>) -> Option<RecipeView> {
    match paths_of(entries).index_of_first(path) {
        Some(i) => Some(entries[i].1),
        None => None,
    }
}

/// The entries after `entry` was put among them: in the place of the entry
/// with the same path where there is one, at the end otherwise.
pub open spec fn spec_put(entries: Seq<Entry>, entry: Entry) -> Seq<Entry> {
    match paths_of(entries).index_of_first(entry.0) {
        Some(i) => entries.update(i, entry),
        None => entries.push(entry),
    }
}

/// The entries that loading `files` in their order gives: a file whose name
/// does not end like a recipe file's is passed over, every other is put.
pub open spec fn spec_load(files: Seq<Entry>) -> Seq<Entry>
    decreases files.len(),
{
    if files.len() == 0 {
        Seq::empty()
    } else {
        let loaded = spec_load(files.drop_last());
        if spec_is_recipe_file(files.last().0) {
            spec_put(loaded, files.last())
        } else {
            loaded
        }
    }
}

/// Putting an entry keeps the paths distinct, and leaves every path in its
/// place.
pub proof fn lemma_put_keeps_paths_distinct(entries: Seq<Entry>, entry: Entry)
    requires
        paths_of(entries).no_duplicates(),
    ensures
        paths_of(spec_put(entries, entry)).no_duplicates(),
        paths_of(entries).is_prefix_of(paths_of(spec_put(entries, entry))),
{
    let paths = paths_of(entries);
    paths.index_of_first_ensures(entry.0);
    match paths.index_of_first(entry.0) {
        Some(i) => {
            assert(paths_of(entries.update(i, entry)) =~= paths);
        },
        None => {
            assert(paths_of(entries.push(entry)) =~= paths.push(entry.0));
        },
    }
}

/// After an entry was put, its path leads to its recipe, and every other path
/// leads to what it led to before.
pub proof fn lemma_get_after_put(entries: Seq<Entry>, entry: Entry, path: Seq<char>)
    ensures
        spec_get(spec_put(entries, entry), path) == if path == entry.0 {
            Some(entry.1)
        } else {
            spec_get(entries, path)
        },
{
    let paths = paths_of(entries);
    let after = spec_put(entries, entry);
    paths.index_of_first_ensures(entry.0);
    paths.index_of_first_ensures(path);
    paths_of(after).index_of_first_ensures(path);
    match paths.index_of_first(entry.0) {
        Some(i) => {
            assert(paths_of(after) =~= paths);
        },
        None => {
            assert(paths_of(after) =~= paths.push(entry.0));
            if path == entry.0 {
                assert(paths_of(after)[entries.len() as int] == path);
            } else if paths.contains(path) {
                let k = paths.index_of_first(path).unwrap();
                assert(paths_of(after)[k] == path);
            } else {
                if paths_of(after).contains(path) {
                    let k = paths_of(after).index_of_first(path).unwrap();
                    assert(paths[k] == path);
                }
            }
        },
    }
}

/// Loading gives no path twice, whatever the files are.
pub proof fn lemma_load_paths_distinct(files: Seq<Entry>)
    ensures
        paths_of(spec_load(files)).no_duplicates(),
    decreases files.len(),
{
    if files.len() > 0 {
        lemma_load_paths_distinct(files.drop_last());
        lemma_put_keeps_paths_distinct(spec_load(files.drop_last()), files.last());
    }
}

/// The season tags of `values`, each one once, in the order in which they
/// first occur.
pub fn distinct_seasons(values: &Vec<SeasonFilter>) -> (kept: Vec<SeasonFilter>)
    ensures
        kept@.no_duplicates(),
        kept@.to_set() == values@.to_set(),
{
    let mut kept: Vec<SeasonFilter> = Vec::new();
    let mut i: usize = 0;
    while i < values.len()
        invariant
            i <= values@.len(),
            kept@.no_duplicates(),
            kept@.to_set() =~= values@.take(i as int).to_set(),
        decreases values@.len() - i,
    {
        let tag = values[i];
        let ghost before = kept@;
        proof {
            assert(values@.take(i + 1) =~= values@.take(i as int).push(tag));
            values@.take(i as int).lemma_push_to_set_commute(tag);
        }
        if !has_season(&kept, tag) {
            kept.push(tag);
            proof {
                before.lemma_push_to_set_commute(tag);
            }
        }
        i += 1;
    }
    assert(values@.take(values@.len() as int) =~= values@);
    kept
}

/// The ethnicity tags of `values`, each one once, in the order in which they
/// first occur.
pub fn distinct_ethnicities(values: &Vec<EthnicityFilter>) -> (kept: Vec<EthnicityFilter>)
    ensures
        kept@.no_duplicates(),
        kept@.to_set() == values@.to_set(),
{
    let mut kept: Vec<EthnicityFilter> = Vec::new();
    let mut i: usize = 0;
    while i < values.len()
        invariant
            i <= values@.len(),
            kept@.no_duplicates(),
            kept@.to_set() =~= values@.take(i as int).to_set(),
        decreases values@.len() - i,
    {
        let tag = values[i];
        let ghost before = kept@;
        proof {
            assert(values@.take(i + 1) =~= values@.take(i as int).push(tag));
            values@.take(i as int).lemma_push_to_set_commute(tag);
        }
        if !has_ethnicity(&kept, tag) {
            kept.push(tag);
            proof {
                before.lemma_push_to_set_commute(tag);
            }
        }
        i += 1;
    }
    assert(values@.take(values@.len() as int) =~= values@);
    kept
}

/// A path is a candidate exactly when it is the path of an entry whose recipe
/// passes the filter.
pub proof fn lemma_candidates_are_the_passing(
    entries: Seq<Entry>,
    seasons: Set<SeasonFilter>,
    ethnicities: Set<EthnicityFilter>,
    path: Seq<char>,
)
    ensures
        candidates_of(entries, seasons, ethnicities).contains(path) <==> exists|i: int|
            0 <= i < entries.len() && (#[trigger] entries[i]).0 == path && passes(
                seasons,
                ethnicities,
                entries[i].1,
            ),
    decreases entries.len(),
{
    let test = is_candidate(seasons, ethnicities);
    let all = candidates_of(entries, seasons, ethnicities);
    if entries.len() == 0 {
        entries.lemma_filter_len(test);
    } else {
        let front = entries.drop_last();
        let last = entries.last();
        let rest = candidates_of(front, seasons, ethnicities);
        assert(entries =~= front.push(last));
        front.lemma_filter_push(last, test);
        lemma_candidates_are_the_passing(front, seasons, ethnicities, path);
        if test(last) {
            assert(all =~= rest.push(last.0));
        }
        if all.contains(path) {
            let k = choose|k: int| 0 <= k < all.len() && all[k] == path;
            if test(last) && k == all.len() - 1 {
                assert(entries[entries.len() - 1] == last);
            } else {
                assert(rest[k] == path);
                let i = choose|i: int|
                    0 <= i < front.len() && (#[trigger] front[i]).0 == path && passes(
                        seasons,
                        ethnicities,
                        front[i].1,
                    );
                assert(entries[i] == front[i]);
            }
        }
        if exists|i: int|
            0 <= i < entries.len() && (#[trigger] entries[i]).0 == path && passes(
                seasons,
                ethnicities,
                entries[i].1,
            ) {
            let i = choose|i: int|
                0 <= i < entries.len() && (#[trigger] entries[i]).0 == path && passes(
                    seasons,
                    ethnicities,
                    entries[i].1,
                );
            if i == entries.len() - 1 {
                assert(all[all.len() - 1] == path);
            } else {
                assert(front[i] == entries[i]);
                let k = choose|k: int| 0 <= k < rest.len() && rest[k] == path;
                assert(all[k] == path);
            }
        }
    }
}

/// Where no path is loaded twice, no path is a candidate twice.
pub proof fn lemma_candidates_distinct(
    entries: Seq<Entry>,
    seasons: Set<SeasonFilter>,
    ethnicities: Set<EthnicityFilter>,
)
    requires
        paths_of(entries).no_duplicates(),
    ensures
        candidates_of(entries, seasons, ethnicities).no_duplicates(),
    decreases entries.len(),
{
    let test = is_candidate(seasons, ethnicities);
    let all = candidates_of(entries, seasons, ethnicities);
    if entries.len() == 0 {
        entries.lemma_filter_len(test);
    } else {
        let front = entries.drop_last();
        let last = entries.last();
        let rest = candidates_of(front, seasons, ethnicities);
        assert(entries =~= front.push(last));
        front.lemma_filter_push(last, test);
        assert(paths_of(front) =~= paths_of(entries).drop_last());
        lemma_candidates_distinct(front, seasons, ethnicities);
        if test(last) {
            assert(all =~= rest.push(last.0));
            lemma_candidates_are_the_passing(front, seasons, ethnicities, last.0);
            if rest.contains(last.0) {
                let i = choose|i: int|
                    0 <= i < front.len() && (#[trigger] front[i]).0 == last.0 && passes(
                        seasons,
                        ethnicities,
                        front[i].1,
                    );
                assert(paths_of(entries)[i] == last.0);
                assert(paths_of(entries)[entries.len() - 1] == last.0);
            }
        }
    }
}

/// With the wildcard in both filter sets, every loaded recipe is a candidate.
pub proof fn lemma_wildcards_make_all_candidates(
    entries: Seq<Entry>,
    seasons: Set<SeasonFilter>,
    ethnicities: Set<EthnicityFilter>,
)
    requires
        seasons.contains(SeasonFilter::Any),
        ethnicities.contains(EthnicityFilter::Any),
    ensures
        candidates_of(entries, seasons, ethnicities) == paths_of(entries),
    decreases entries.len(),
{
    let test = is_candidate(seasons, ethnicities);
    if entries.len() == 0 {
        entries.lemma_filter_len(test);
        assert(candidates_of(entries, seasons, ethnicities) =~= paths_of(entries));
    } else {
        let front = entries.drop_last();
        let last = entries.last();
        assert(entries =~= front.push(last));
        front.lemma_filter_push(last, test);
        lemma_wildcards_make_all_candidates(front, seasons, ethnicities);
        assert(test(last));
        assert(candidates_of(entries, seasons, ethnicities) =~= paths_of(front).push(last.0));
        assert(paths_of(entries) =~= paths_of(front).push(last.0));
    }
}

/// With an empty season filter, or an empty ethnicity filter, there is no
/// candidate, whatever is loaded.
pub proof fn lemma_empty_filter_no_candidates(
    entries: Seq<Entry>,
    seasons: Set<SeasonFilter>,
    ethnicities: Set<EthnicityFilter>,
)
    requires
        seasons =~= Set::<SeasonFilter>::empty() || ethnicities =~= Set::<EthnicityFilter>::empty(),
    ensures
        candidates_of(entries, seasons, ethnicities) == Seq::<Seq<char>>::empty(),
{
    let all = candidates_of(entries, seasons, ethnicities);
    if all.len() > 0 {
        assert(all.contains(all[0]));
        lemma_candidates_are_the_passing(entries, seasons, ethnicities, all[0]);
    }
    assert(all =~= Seq::<Seq<char>>::empty());
}

/// The recipes that were loaded, each under its path, and the filter sets
/// that decide which of them may be selected.
///
/// No path occurs twice, and a filter set holds each of its tags once.
pub struct Recipes {
    inner: Vec<(String, Recipe)>,
    season_filter: Vec<SeasonFilter>,
    ethnicity_filter: Vec<EthnicityFilter>,
}

impl Recipes {
    #[verifier::type_invariant]
    spec fn well_formed(self) -> bool {
        &&& paths_of(self.entries()).no_duplicates()
        &&& self.season_filter@.no_duplicates()
        &&& self.ethnicity_filter@.no_duplicates()
    }

    /// The loaded recipes with their paths, in the order in which they came.
    pub closed spec fn entries(self) -> Seq<Entry> {
        entries_of(self.inner@)
    }

    /// The seasons that are asked for.
    pub closed spec fn season_set(self) -> Set<SeasonFilter> {
        self.season_filter@.to_set()
    }

    /// The ethnicities that are asked for.
    pub closed spec fn ethnicity_set(self) -> Set<EthnicityFilter> {
        self.ethnicity_filter@.to_set()
    }

    /// Whether a recipe passes the filter sets of this collection.
    pub open spec fn spec_passes(self, recipe: RecipeView) -> bool {
        passes(self.season_set(), self.ethnicity_set(), recipe)
    }

    /// The paths of the recipes that may be selected, in the order in which
    /// they were loaded.
    pub open spec fn candidate_paths(self) -> Seq<Seq<char>> {
        candidates_of(self.entries(), self.season_set(), self.ethnicity_set())
    }

    /// A collection without recipes that filters by the given tags. A tag
    /// that is given twice counts once.
    pub fn new(seasons: Vec<SeasonFilter>, ethnicities: Vec<EthnicityFilter>) -> (made: Recipes)
        ensures
            made.entries() == Seq::<Entry>::empty(),
            made.season_set() == seasons@.to_set(),
            made.ethnicity_set() == ethnicities@.to_set(),
    {
        let made = Recipes {
            inner: Vec::new(),
            season_filter: distinct_seasons(&seasons),
            ethnicity_filter: distinct_ethnicities(&ethnicities),
        };
        assert(made.entries() =~= Seq::<Entry>::empty());
        made
    }

    /// The collection for a run: it filters by the tags of `args` and holds
    /// the recipes of `files`, each under the path it was read from. The files
    /// are taken in their order; one whose name does not end like a recipe
    /// file's is passed over, and of two with the same path the later stays.
    pub fn from_args(args: &GetRandomRecipes, files: Vec<(String, Recipe)>) -> (made: Recipes)
        ensures
            made.entries() == spec_load(entries_of(files@)),
            made.season_set() == args.season@.to_set(),
            made.ethnicity_set() == args.ethnicity@.to_set(),
    {
        let ghost all = entries_of(files@);
        let mut made = Recipes::new(args.season.clone(), args.ethnicity.clone());
        let mut waiting: Vec<(String, Recipe)> = files;
        let mut stack: Vec<(String, Recipe)> = Vec::new();
        while waiting.len() > 0
            invariant
                waiting@.len() + stack@.len() == all.len(),
                forall|k: int|
                    0 <= k < waiting@.len() ==> (#[trigger] waiting@[k].0)@ == all[k].0
                        && waiting@[k].1@ == all[k].1,
                forall|k: int|
                    0 <= k < stack@.len() ==> (#[trigger] stack@[k].0)@ == all[all.len() - 1 - k].0
                        && stack@[k].1@ == all[all.len() - 1 - k].1,
            decreases waiting@.len(),
        {
            let file = waiting.pop().unwrap();
            stack.push(file);
        }
        assert(all.take(0) =~= Seq::<Entry>::empty());
        while stack.len() > 0
            invariant
                stack@.len() <= all.len(),
                forall|k: int|
                    0 <= k < stack@.len() ==> (#[trigger] stack@[k].0)@ == all[all.len() - 1 - k].0
                        && stack@[k].1@ == all[all.len() - 1 - k].1,
                made.entries() == spec_load(all.take(all.len() - stack@.len())),
                made.season_set() == args.season@.to_set(),
                made.ethnicity_set() == args.ethnicity@.to_set(),
            decreases stack@.len(),
        {
            let ghost done = all.len() - stack@.len();
            let file = stack.pop().unwrap();
            proof {
                assert(all.take(done + 1).drop_last() =~= all.take(done));
                assert(all.take(done + 1).last() == all[done]);
                assert(all[done] == (file.0@, file.1@));
            }
            if is_recipe_file(file.0.as_str()) {
                made.insert(file.0, file.1);
            }
        }
        assert(all.take(all.len() as int) =~= all);
        made
    }

    /// The number of recipes that are loaded.
    pub fn len(&self) -> (n: usize)
        ensures
            n == self.entries().len(),
    {
        self.inner.len()
    }

    /// Where the recipe under `path` stands, if one is loaded under it.
    fn position(&self, path: &String) -> (at: Option<usize>)
        ensures
            match at {
                Some(i) => i < self.entries().len() && self.entries()[i as int].0 == path@,
                None => !paths_of(self.entries()).contains(path@),
            },
    {
        let mut i: usize = 0;
        while i < self.inner.len()
            invariant
                i <= self.inner@.len(),
                forall|k: int| 0 <= k < i ==> self.inner@[k].0@ != path@,
            decreases self.inner@.len() - i,
        {
            if self.inner[i].0 == *path {
                return Some(i);
            }
            i += 1;
        }
        None
    }

    /// The recipe that is loaded under `path`, if there is one.
    pub fn get(&self, path: &String) -> (found: Option<&Recipe>)
        ensures
            match found {
                Some(recipe) => spec_get(self.entries(), path@) == Some(recipe@),
                None => spec_get(self.entries(), path@) is None,
            },
    {
        proof {
            use_type_invariant(self);
            paths_of(self.entries()).index_of_first_ensures(path@);
        }
        match self.position(path) {
            Some(i) => {
                assert(paths_of(self.entries())[i as int] == path@);
                Some(&self.inner[i].1)
            },
            None => None,
        }
    }

    /// Puts `recipe` under `path`. A recipe that was there before leaves and is
    /// handed back, and the new one takes its place in the order; otherwise
    /// the new one comes last.
    pub fn insert(&mut self, path: String, recipe: Recipe) -> (previous: Option<Recipe>)
        ensures
            final(self).entries() == spec_put(old(self).entries(), (path@, recipe@)),
            match previous {
                Some(replaced) => spec_get(old(self).entries(), path@) == Some(replaced@),
                None => spec_get(old(self).entries(), path@) is None,
            },
            final(self).season_set() == old(self).season_set(),
            final(self).ethnicity_set() == old(self).ethnicity_set(),
    {
        proof {
            use_type_invariant(&*self);
        }
        let ghost before = self.entries();
        let ghost new_entry = (path@, recipe@);
        proof {
            paths_of(before).index_of_first_ensures(path@);
            lemma_put_keeps_paths_distinct(before, new_entry);
        }
        let found = self.position(&path);
        let mut inner: Vec<(String, Recipe)> = Vec::new();
        core::mem::swap(&mut self.inner, &mut inner);
        inner.push((path, recipe));
        match found {
            Some(i) => {
                assert(paths_of(before)[i as int] == new_entry.0);
                let replaced = inner.swap_remove(i);
                let ghost after = entries_of(inner@);
                assert(after =~= before.update(i as int, new_entry));
                self.inner = inner;
                assert(self.entries() == after);
                Some(replaced.1)
            },
            None => {
                let ghost after = entries_of(inner@);
                assert(after =~= before.push(new_entry));
                self.inner = inner;
                assert(self.entries() == after);
                None
            },
        }
    }

    /// Whether `recipe` passes both the ethnicity filter and the season
    /// filter.
    pub fn passes_filters(&self, recipe: &Recipe) -> (ok: bool)
        ensures
            ok == self.spec_passes(recipe@),
    {
        let passes_ethnicity_filter = passes_ethnicity_filter(
            &self.ethnicity_filter,
            &recipe.ethnicities,
        );
        let passes_season_filter = passes_season_filter(&self.season_filter, &recipe.seasons);
        passes_ethnicity_filter && passes_season_filter
    }

    /// The paths of the recipes that pass the filters, in the order in which
    /// they were loaded. No path occurs twice.
    pub fn candidates(&self) -> (paths: Vec<String>)
        ensures
            paths.deep_view() == self.candidate_paths(),
            paths.deep_view().no_duplicates(),
    {
        proof {
            use_type_invariant(self);
        }
        let ghost seasons = self.season_set();
        let ghost ethnicities = self.ethnicity_set();
        let ghost test = is_candidate(seasons, ethnicities);
        let mut paths: Vec<String> = Vec::new();
        let mut i: usize = 0;
        proof {
            self.entries().take(0).lemma_filter_len(test);
            assert(paths.deep_view() =~= candidates_of(self.entries().take(0), seasons, ethnicities));
        }
        while i < self.inner.len()
            invariant
                i <= self.inner@.len(),
                seasons == self.season_set(),
                ethnicities == self.ethnicity_set(),
                test == is_candidate(seasons, ethnicities),
                paths.deep_view() == candidates_of(
                    self.entries().take(i as int),
                    seasons,
                    ethnicities,
                ),
            decreases self.inner@.len() - i,
        {
            let ghost front = self.entries().take(i as int);
            let ghost entry = self.entries()[i as int];
            let ghost found = paths.deep_view();
            proof {
                assert(self.entries().take(i + 1) =~= front.push(entry));
                front.lemma_filter_push(entry, test);
            }
            if self.passes_filters(&self.inner[i].1) {
                paths.push(self.inner[i].0.clone());
                proof {
                    assert(paths.deep_view() =~= found.push(entry.0));
                    assert(paths_of(front.filter(test).push(entry)) =~= paths_of(
                        front.filter(test),
                    ).push(entry.0));
                }
            }
            i += 1;
        }
        proof {
            assert(self.entries().take(i as int) =~= self.entries());
            lemma_candidates_distinct(self.entries(), seasons, ethnicities);
        }
        paths
    }

    /// The candidates that stand at the positions `picks`, in the order of
    /// the picks. Positions count among the candidates only.
    pub fn select_picked(&self, picks: &Vec<usize>) -> (selected: Vec<String>)
        requires
            forall|i: int|
                0 <= i < picks@.len() ==> (#[trigger] picks@[i]) < self.candidate_paths().len(),
        ensures
            selected.deep_view() == spec_pick(self.candidate_paths(), picks@),
    {
        let keys = self.candidates();
        pick(&keys, picks)
    }

    /// Selects `num_recipes` of the candidates at random, or all of them where
    /// there are fewer. The draw is made by the thread's random generator, which
    /// favours no candidate; what is stated here holds of every draw. The order
    /// of the result says nothing.
    pub fn randomly_select_recipes(&self, num_recipes: usize) -> (selected: Vec<String>)
        ensures
            selected.deep_view().len() == if self.candidate_paths().len() < num_recipes {
                self.candidate_paths().len()
            } else {
                num_recipes as nat
            },
            selected.deep_view().no_duplicates(),
            selected.deep_view().to_set().subset_of(self.candidate_paths().to_set()),
            self.candidate_paths().len() <= num_recipes ==> selected.deep_view().to_set()
                == self.candidate_paths().to_set(),
            exists|picks: Seq<usize>|
                distinct_positions(picks, self.candidate_paths().len()) && selected.deep_view()
                    == spec_pick(self.candidate_paths(), picks),
    {
        let keys = self.candidates();
        let num_to_select = if keys.len() < num_recipes {
            keys.len()
        } else {
            num_recipes
        };
        let picks = choose_positions(keys.len(), num_to_select);
        let selected = pick(&keys, &picks);
        proof {
            lemma_pick_no_duplicates(self.candidate_paths(), picks@);
            lemma_pick_subset(self.candidate_paths(), picks@);
            if self.candidate_paths().len() <= num_recipes {
                lemma_pick_all(self.candidate_paths(), picks@);
            }
        }
        selected
    }
}

} // verus!
