//! The table from original paths to fingerprinted paths: an ordered map
//! from text to text, kept as pairs in ascending order of their keys.

use crate::text::{lemma_text_lt_irreflexive, lemma_text_lt_transitive, rank, text_lt, Rank};
use vstd::prelude::*;

verus! {

/// A key with its value, as plain text.
pub type Pair = (Seq<char>, Seq<char>);

/// Whether the keys of `pairs` ascend strictly, so that none occurs twice.
pub open spec fn is_sorted(pairs: Seq<Pair>) -> bool {
    forall|i: int, j: int| 0 <= i < j < pairs.len() ==> text_lt(pairs[i].0, pairs[j].0)
}

/// Whether `key` is the key of one of `pairs`.
pub open spec fn has_key(pairs: Seq<Pair>, key: Seq<char>) -> bool {
    exists|i: int| 0 <= i < pairs.len() && #[trigger] pairs[i].0 == key
}

/// A place in `pairs` at which `key` stands, where it stands at one.
pub open spec fn place_of(pairs: Seq<Pair>, key: Seq<char>) -> int {
    choose|i: int| 0 <= i < pairs.len() && #[trigger] pairs[i].0 == key
}

/// The map that `pairs` stand for.
pub open spec fn map_of(pairs: Seq<Pair>) -> Map<Seq<char>, Seq<char>> {
    Map::new(|key: Seq<char>| has_key(pairs, key), |key: Seq<char>| pairs[place_of(pairs, key)].1)
}

/// Keys and values of a vector of pairs, as plain text.
pub open spec fn pairs_of(entries: Seq<(String, String)>) -> Seq<Pair> {
    Seq::new(entries.len(), |i: int| (entries[i].0@, entries[i].1@))
}

/// In sorted pairs a key stands at one place only.
pub proof fn lemma_sorted_keys_differ(pairs: Seq<Pair>, i: int, j: int)
    requires
        is_sorted(pairs),
        0 <= i < pairs.len(),
        0 <= j < pairs.len(),
        pairs[i].0 == pairs[j].0,
    ensures
        i == j,
{
    lemma_text_lt_irreflexive(pairs[i].0);
}

/// The map of sorted pairs holds each pair's value under its key.
pub proof fn lemma_map_of_holds(pairs: Seq<Pair>, i: int)
    requires
        is_sorted(pairs),
        0 <= i < pairs.len(),
    ensures
        map_of(pairs).contains_key(pairs[i].0),
        map_of(pairs)[pairs[i].0] == pairs[i].1,
{
    lemma_sorted_keys_differ(pairs, i, place_of(pairs, pairs[i].0));
}

/// Two sorted lists of pairs that stand for the same map are the same list:
/// the order of a table is fixed by what it holds.
pub proof fn lemma_sorted_pairs_unique(first: Seq<Pair>, second: Seq<Pair>)
    requires
        is_sorted(first),
        is_sorted(second),
        map_of(first) == map_of(second),
    ensures
        first == second,
    decreases first.len(),
{
    if first.len() == 0 {
        if second.len() > 0 {
            lemma_map_of_holds(second, 0);
            assert(has_key(first, second[0].0));
        }
        assert(first =~= second);
    } else if second.len() == 0 {
        lemma_map_of_holds(first, 0);
        assert(has_key(second, first[0].0));
    } else {
        let a = first.last();
        let b = second.last();
        lemma_map_of_holds(first, first.len() - 1);
        lemma_map_of_holds(second, second.len() - 1);
        assert(has_key(second, a.0));
        assert(has_key(first, b.0));
        let ia = place_of(second, a.0);
        let ib = place_of(first, b.0);
        if ia < second.len() - 1 {
            // a < b, yet b stands in `first`, at or before a
            if ib < first.len() - 1 {
                lemma_text_lt_transitive(a.0, b.0, a.0);
            }
            lemma_text_lt_irreflexive(a.0);
            assert(false);
        }
        lemma_map_of_holds(second, ia);
        assert(a == b);
        let shorter_first = first.drop_last();
        let shorter_second = second.drop_last();
        assert forall|key: Seq<char>| has_key(shorter_first, key) implies has_key(
            shorter_second,
            key,
        ) by {
            let i = place_of(shorter_first, key);
            assert(first[i].0 == key);
            lemma_map_of_holds(first, i);
            assert(has_key(second, key));
            let j = place_of(second, key);
            if j == second.len() - 1 {
                lemma_sorted_keys_differ(first, i, first.len() - 1);
            }
            assert(shorter_second[j].0 == key);
        }
        assert forall|key: Seq<char>| has_key(shorter_second, key) implies has_key(
            shorter_first,
            key,
        ) by {
            let i = place_of(shorter_second, key);
            assert(second[i].0 == key);
            lemma_map_of_holds(second, i);
            assert(has_key(first, key));
            let j = place_of(first, key);
            if j == first.len() - 1 {
                lemma_sorted_keys_differ(second, i, second.len() - 1);
            }
            assert(shorter_first[j].0 == key);
        }
        assert forall|key: Seq<char>| has_key(shorter_first, key) implies map_of(
            shorter_first,
        )[key] == map_of(shorter_second)[key] by {
            let i = place_of(shorter_first, key);
            let j = place_of(shorter_second, key);
            lemma_map_of_holds(shorter_first, i);
            lemma_map_of_holds(shorter_second, j);
            assert(first[i].0 == key);
            assert(second[j].0 == key);
            lemma_map_of_holds(first, i);
            lemma_map_of_holds(second, j);
        }
        assert(map_of(shorter_first) =~= map_of(shorter_second));
        lemma_sorted_pairs_unique(shorter_first, shorter_second);
        assert(first =~= shorter_first.push(a));
        assert(second =~= shorter_second.push(b));
    }
}

/// An ordered map from text to text.
#[derive(Clone, Debug)]
pub struct AssetTable {
    entries: Vec<(String, String)>,
}

impl AssetTable {
    /// What every table keeps: its keys ascend strictly.
    pub closed spec fn wf(self) -> bool {
        is_sorted(self.pairs())
    }

    /// The pairs of the table, in the order of their keys.
    pub closed spec fn pairs(self) -> Seq<Pair> {
        pairs_of(self.entries@)
    }

    /// What the table holds, as a map.
    pub open spec fn view(self) -> Map<Seq<char>, Seq<char>> {
        map_of(self.pairs())
    }

    /// A table that holds nothing.
    pub fn new() -> (table: Self)
        ensures
            table.wf(),
            table.pairs() == Seq::<Pair>::empty(),
            table@ == Map::<Seq<char>, Seq<char>>::empty(),
    {
        let table = AssetTable { entries: Vec::new() };
        assert(table.pairs() =~= Seq::<Pair>::empty());
        assert(table@ =~= Map::<Seq<char>, Seq<char>>::empty());
        table
    }

    /// The pairs of a table ascend strictly by key.
    pub proof fn lemma_pairs_sorted(self)
        requires
            self.wf(),
        ensures
            is_sorted(self.pairs()),
    {
    }

    /// How many pairs the table holds.
    pub fn len(&self) -> (n: usize)
        ensures
            n == self.pairs().len(),
    {
        self.entries.len()
    }

    /// The pairs of the table as they are kept, in the order of their keys.
    pub fn entries(&self) -> (entries: &Vec<(String, String)>)
        ensures
            pairs_of(entries@) == self.pairs(),
    {
        &self.entries
    }

    /// The key of the pair at place `i`.
    pub fn key_at(&self, i: usize) -> (key: &String)
        requires
            i < self.pairs().len(),
        ensures
            key@ == self.pairs()[i as int].0,
    {
        &self.entries[i].0
    }

    /// The value of the pair at place `i`.
    pub fn value_at(&self, i: usize) -> (value: &String)
        requires
            i < self.pairs().len(),
        ensures
            value@ == self.pairs()[i as int].1,
    {
        &self.entries[i].1
    }

    /// Finds the place of `key`: where it stands, or where it would go.
    fn locate(&self, key: &str) -> (found: (usize, bool))
        requires
            self.wf(),
        ensures
            found.0 <= self.pairs().len(),
            forall|i: int| 0 <= i < found.0 ==> text_lt(self.pairs()[i].0, key@),
            found.1 ==> found.0 < self.pairs().len() && self.pairs()[found.0 as int].0 == key@,
            !found.1 ==> forall|i: int|
                found.0 <= i < self.pairs().len() ==> text_lt(key@, self.pairs()[i].0),
    {
        let mut low: usize = 0;
        let mut high: usize = self.entries.len();
        while low < high
            invariant
                low <= high <= self.pairs().len(),
                self.pairs().len() == self.entries@.len(),
                is_sorted(self.pairs()),
                forall|i: int| 0 <= i < low ==> text_lt(self.pairs()[i].0, key@),
                forall|i: int| high <= i < self.pairs().len() ==> text_lt(key@, self.pairs()[i].0),
            decreases high - low,
        {
            let middle = low + (high - low) / 2;
            let ghost at_middle = self.pairs()[middle as int].0;
            match rank(key, self.entries[middle].0.as_str()) {
                Rank::Same => {
                    return (middle, true);
                },
                Rank::Before => {
                    assert forall|i: int| middle <= i < self.pairs().len() implies text_lt(
                        key@,
                        self.pairs()[i].0,
                    ) by {
                        if i > middle {
                            lemma_text_lt_transitive(key@, at_middle, self.pairs()[i].0);
                        }
                    }
                    high = middle;
                },
                Rank::After => {
                    assert forall|i: int| 0 <= i < middle + 1 implies text_lt(
                        self.pairs()[i].0,
                        key@,
                    ) by {
                        if i < middle {
                            lemma_text_lt_transitive(self.pairs()[i].0, at_middle, key@);
                        }
                    }
                    low = middle + 1;
                },
            }
        }
        (low, false)
    }

    /// Looks `key` up.
    pub fn get(&self, key: &str) -> (value: Option<&String>)
        requires
            self.wf(),
        ensures
            match value {
                Some(found) => self@.contains_key(key@) && found@ == self@[key@],
                None => !self@.contains_key(key@),
            },
    {
        let (place, found) = self.locate(key);
        if found {
            proof {
                lemma_map_of_holds(self.pairs(), place as int);
            }
            Some(&self.entries[place].1)
        } else {
            proof {
                if has_key(self.pairs(), key@) {
                    let i = place_of(self.pairs(), key@);
                    lemma_text_lt_irreflexive(key@);
                }
            }
            None
        }
    }

    /// Puts `value` under `key`, in place of what stood there.
    pub fn insert(&mut self, key: String, value: String)
        requires
            old(self).wf(),
        ensures
            final(self).wf(),
            final(self)@ == old(self)@.insert(key@, value@),
    {
        let ghost before = self.pairs();
        let (place, found) = self.locate(key.as_str());
        let ghost fresh: Pair = (key@, value@);
        if found {
            self.entries.set(place, (key, value));
            proof {
                let after = self.pairs();
                assert(after =~= before.update(place as int, fresh));
                lemma_update_keeps_sorted(before, place as int, fresh);
                lemma_map_of_update(before, place as int, fresh);
            }
        } else {
            self.entries.insert(place, (key, value));
            proof {
                let after = self.pairs();
                assert(after =~= before.insert(place as int, fresh));
                lemma_insert_keeps_sorted(before, place as int, fresh);
                lemma_map_of_insert(before, place as int, fresh);
            }
        }
    }

    /// The pairs of the table, in the order of their keys.
    pub fn to_vec(&self) -> (copy: Vec<(String, String)>)
        ensures
            pairs_of(copy@) == self.pairs(),
    {
        let mut copy: Vec<(String, String)> = Vec::new();
        let mut i: usize = 0;
        while i < self.entries.len()
            invariant
                i <= self.entries@.len(),
                copy@.len() == i,
                pairs_of(copy@)
                    == self.pairs().take(i as int),
            decreases self.entries@.len() - i,
        {
            let key = self.entries[i].0.clone();
            let value = self.entries[i].1.clone();
            let ghost before = copy@;
            copy.push((key, value));
            i += 1;
            assert forall|j: int| 0 <= j < i implies pairs_of(copy@)[j] == self.pairs()[j] by {
                if j < i - 1 {
                    assert(pairs_of(copy@)[j] == pairs_of(before)[j]);
                    assert(pairs_of(before)[j] == self.pairs().take(i - 1)[j]);
                }
            }
            assert(pairs_of(copy@) =~= self.pairs().take(i as int));
        }
        assert(self.pairs().take(i as int) == self.pairs());
        copy
    }
}

/// Pairs stay sorted when the value of one is replaced.
proof fn lemma_update_keeps_sorted(pairs: Seq<Pair>, place: int, fresh: Pair)
    requires
        is_sorted(pairs),
        0 <= place < pairs.len(),
        pairs[place].0 == fresh.0,
    ensures
        is_sorted(pairs.update(place, fresh)),
{
    let after = pairs.update(place, fresh);
    assert forall|i: int, j: int| 0 <= i < j < after.len() implies text_lt(
        after[i].0,
        after[j].0,
    ) by {
        assert(after[i].0 == pairs[i].0);
        assert(after[j].0 == pairs[j].0);
    }
}

/// Replacing the value of one pair puts the new value under its key.
proof fn lemma_map_of_update(pairs: Seq<Pair>, place: int, fresh: Pair)
    requires
        is_sorted(pairs),
        0 <= place < pairs.len(),
        pairs[place].0 == fresh.0,
    ensures
        map_of(pairs.update(place, fresh)) == map_of(pairs).insert(fresh.0, fresh.1),
{
    let after = pairs.update(place, fresh);
    lemma_update_keeps_sorted(pairs, place, fresh);
    let wanted = map_of(pairs).insert(fresh.0, fresh.1);
    assert forall|key: Seq<char>| map_of(after).contains_key(key) implies wanted.contains_key(
        key,
    ) && wanted[key] == map_of(after)[key] by {
        let i = place_of(after, key);
        lemma_map_of_holds(after, i);
        assert(pairs[i].0 == key);
        if i != place {
            lemma_map_of_holds(pairs, i);
            if key == fresh.0 {
                lemma_sorted_keys_differ(pairs, i, place);
            }
        }
    }
    assert forall|key: Seq<char>| wanted.contains_key(key) implies map_of(after).contains_key(
        key,
    ) by {
        if key == fresh.0 {
            assert(after[place].0 == key);
        } else {
            let i = place_of(pairs, key);
            assert(after[i].0 == key);
        }
    }
    assert(map_of(after) =~= wanted);
}

/// Pairs stay sorted when a new key goes in at its place.
proof fn lemma_insert_keeps_sorted(pairs: Seq<Pair>, place: int, fresh: Pair)
    requires
        is_sorted(pairs),
        0 <= place <= pairs.len(),
        forall|i: int| 0 <= i < place ==> text_lt(pairs[i].0, fresh.0),
        forall|i: int| place <= i < pairs.len() ==> text_lt(fresh.0, pairs[i].0),
    ensures
        is_sorted(pairs.insert(place, fresh)),
{
    let after = pairs.insert(place, fresh);
    assert forall|i: int, j: int| 0 <= i < j < after.len() implies text_lt(
        after[i].0,
        after[j].0,
    ) by {
        if j < place {
            assert(after[i] == pairs[i] && after[j] == pairs[j]);
        } else if j == place {
            assert(after[i] == pairs[i]);
        } else if i < place {
            assert(after[i] == pairs[i] && after[j] == pairs[j - 1]);
        } else if i == place {
            assert(after[j] == pairs[j - 1]);
        } else {
            assert(after[i] == pairs[i - 1] && after[j] == pairs[j - 1]);
        }
    }
}

/// A new key that goes in at its place is added to the map.
proof fn lemma_map_of_insert(pairs: Seq<Pair>, place: int, fresh: Pair)
    requires
        is_sorted(pairs),
        0 <= place <= pairs.len(),
        forall|i: int| 0 <= i < place ==> text_lt(pairs[i].0, fresh.0),
        forall|i: int| place <= i < pairs.len() ==> text_lt(fresh.0, pairs[i].0),
    ensures
        map_of(pairs.insert(place, fresh)) == map_of(pairs).insert(fresh.0, fresh.1),
{
    let after = pairs.insert(place, fresh);
    lemma_insert_keeps_sorted(pairs, place, fresh);
    let wanted = map_of(pairs).insert(fresh.0, fresh.1);
    assert forall|key: Seq<char>| map_of(after).contains_key(key) implies wanted.contains_key(
        key,
    ) && wanted[key] == map_of(after)[key] by {
        let i = place_of(after, key);
        lemma_map_of_holds(after, i);
        if i < place {
            assert(after[i] == pairs[i]);
            lemma_map_of_holds(pairs, i);
            lemma_text_lt_irreflexive(key);
        } else if i > place {
            assert(after[i] == pairs[i - 1]);
            lemma_map_of_holds(pairs, i - 1);
            lemma_text_lt_irreflexive(key);
        }
    }
    assert forall|key: Seq<char>| wanted.contains_key(key) implies map_of(after).contains_key(
        key,
    ) by {
        if key == fresh.0 {
            assert(after[place].0 == key);
        } else {
            let i = place_of(pairs, key);
            if i < place {
                assert(after[i].0 == key);
            } else {
                assert(after[i + 1].0 == key);
            }
        }
    }
    assert(map_of(after) =~= wanted);
}

} // verus!
