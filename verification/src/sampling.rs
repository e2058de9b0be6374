//! Drawing positions at random, and taking the items that stand at them.

use rand::seq::IteratorRandom;
use vstd::prelude::*;

verus! {

/// Every pick is a position below `n`, and no position is picked twice.
pub open spec fn distinct_positions(picks: Seq<usize>, n: nat) -> bool {
    &&& forall|i: int| 0 <= i < picks.len() ==> (#[trigger] picks[i]) < n
    &&& forall|i: int, j: int|
        0 <= i < picks.len() && 0 <= j < picks.len() && i != j ==> picks[i] != picks[j]
}

/// The items that stand at the picked positions, in the order of the picks.
pub open spec fn spec_pick<T>(items: Seq<T>, picks: Seq<usize>) -> Seq<T> {
    Seq::new(picks.len(), |i: int| items[picks[i] as int])
}

/// Draws `amount` of the positions `0..n` with the thread's random generator.
///
/// Calls `rand::seq::IteratorRandom::choose_multiple` on the range `0..n`,
/// with `rand::thread_rng()` as the generator. That function keeps a reservoir
/// of `amount` items of the iterator and lets later items take the place of
/// earlier ones at random. Believed of it here, without proof: it returns
/// `amount` items when the iterator has that many, each one an item of the
/// iterator, and none of them taken twice. Which positions come back, and in
/// which order, is left open, and so is how likely each outcome is.
#[verifier::external_body]
pub(crate) fn choose_positions(n: usize, amount: usize) -> (picks: Vec<usize>)
    requires
        amount <= n,
    ensures
        picks@.len() == amount,
        distinct_positions(picks@, n as nat),
{
    (0..n).choose_multiple(&mut rand::thread_rng(), amount)
}

/// Picks that differ, taken from items that differ, give items that differ.
pub proof fn lemma_pick_no_duplicates<T>(items: Seq<T>, picks: Seq<usize>)
    requires
        items.no_duplicates(),
        distinct_positions(picks, items.len()),
    ensures
        spec_pick(items, picks).no_duplicates(),
{
    let picked = spec_pick(items, picks);
    assert forall|i: int, j: int|
        0 <= i < picked.len() && 0 <= j < picked.len() && i != j implies picked[i] != picked[j] by {
        assert(picks[i] < items.len());
        assert(picks[j] < items.len());
        assert(picks[i] != picks[j]);
    }
}

/// Every picked item is one of the items.
pub proof fn lemma_pick_subset<T>(items: Seq<T>, picks: Seq<usize>)
    requires
        forall|i: int| 0 <= i < picks.len() ==> (#[trigger] picks[i]) < items.len(),
    ensures
        spec_pick(items, picks).to_set().subset_of(items.to_set()),
{
    let picked = spec_pick(items, picks);
    assert forall|x: T| picked.to_set().contains(x) implies items.to_set().contains(x) by {
        let i = choose|i: int| 0 <= i < picked.len() && picked[i] == x;
        assert(picks[i] < items.len());
        assert(items[picks[i] as int] == x);
    }
}

/// As many distinct picks as there are distinct items take every item, each
/// exactly once.
pub proof fn lemma_pick_all<T>(items: Seq<T>, picks: Seq<usize>)
    requires
        items.no_duplicates(),
        distinct_positions(picks, items.len()),
        picks.len() == items.len(),
    ensures
        spec_pick(items, picks).no_duplicates(),
        spec_pick(items, picks).to_set() == items.to_set(),
{
    let picked = spec_pick(items, picks);
    lemma_pick_no_duplicates(items, picks);
    lemma_pick_subset(items, picks);
    picked.unique_seq_to_set();
    items.unique_seq_to_set();
    vstd::seq_lib::seq_to_set_is_finite(picked);
    vstd::seq_lib::seq_to_set_is_finite(items);
    vstd::set_lib::lemma_subset_equality(picked.to_set(), items.to_set());
}

/// The items of `candidates` at the positions `picks`, in the order of the
/// picks.
pub fn pick(candidates: &Vec<String>, picks: &Vec<usize>) -> (selected: Vec<String>)
    requires
        forall|i: int| 0 <= i < picks@.len() ==> (#[trigger] picks@[i]) < candidates@.len(),
    ensures
        selected.deep_view() == spec_pick(candidates.deep_view(), picks@),
{
    let mut selected: Vec<String> = Vec::new();
    let mut i: usize = 0;
    while i < picks.len()
        invariant
            i <= picks@.len(),
            forall|k: int| 0 <= k < picks@.len() ==> (#[trigger] picks@[k]) < candidates@.len(),
            selected@.len() == i,
            forall|k: int| 0 <= k < i ==> (#[trigger] selected@[k])@ == candidates@[picks@[k] as int]@,
        decreases picks@.len() - i,
    {
        let at: usize = picks[i];
        selected.push(candidates[at].clone());
        i += 1;
    }
    assert(selected.deep_view() =~= spec_pick(candidates.deep_view(), picks@));
    selected
}

} // verus!
