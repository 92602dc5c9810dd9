//! A small map keyed by text.
//!
//! The entries live in a vector in which no key occurs twice. Writing a key
//! that is already present replaces its value, so the last write wins.

use vstd::prelude::*;

verus! {

/// The map obtained by writing `pairs` into `base` from first to last.
pub open spec fn written<A>(base: Map<Seq<char>, A>, pairs: Seq<(Seq<char>, A)>) -> Map<
    Seq<char>,
    A,
>
    decreases pairs.len(),
{
    if pairs.len() == 0 {
        base
    } else {
        written(base, pairs.drop_last()).insert(pairs.last().0, pairs.last().1)
    }
}

/// No key occurs at two positions of `pairs`.
pub open spec fn distinct_keys<A>(pairs: Seq<(Seq<char>, A)>) -> bool {
    forall|i: int, j: int| 0 <= i < j < pairs.len() ==> pairs[i].0 != pairs[j].0
}

/// A key is in the written map exactly if it was in the base or is one of the pairs.
pub proof fn lemma_written_keys<A>(base: Map<Seq<char>, A>, pairs: Seq<(Seq<char>, A)>, key: Seq<char>)
    ensures
        written(base, pairs).contains_key(key) <==> (base.contains_key(key) || exists|i: int|
            0 <= i < pairs.len() && #[trigger] pairs[i].0 == key),
    decreases pairs.len(),
{
    if pairs.len() > 0 {
        let front = pairs.drop_last();
        lemma_written_keys(base, front, key);
        if exists|i: int| 0 <= i < front.len() && #[trigger] front[i].0 == key {
            let i = choose|i: int| 0 <= i < front.len() && #[trigger] front[i].0 == key;
            assert(pairs[i].0 == key);
        }
        if exists|i: int| 0 <= i < pairs.len() && #[trigger] pairs[i].0 == key {
            let i = choose|i: int| 0 <= i < pairs.len() && #[trigger] pairs[i].0 == key;
            if i < front.len() {
                assert(front[i].0 == key);
            }
        }
    }
}

/// Where the keys are distinct, each pair's value is the one the map holds.
pub proof fn lemma_written_value<A>(pairs: Seq<(Seq<char>, A)>, i: int)
    requires
        distinct_keys(pairs),
        0 <= i < pairs.len(),
    ensures
        written(Map::empty(), pairs).contains_key(pairs[i].0),
        written(Map::empty(), pairs)[pairs[i].0] == pairs[i].1,
    decreases pairs.len(),
{
    let front = pairs.drop_last();
    if i < pairs.len() - 1 {
        assert(distinct_keys(front)) by {
            assert forall|a: int, b: int| 0 <= a < b < front.len() implies front[a].0
                != front[b].0 by {
                assert(pairs[a].0 != pairs[b].0);
            }
        }
        lemma_written_value(front, i);
        assert(front[i] == pairs[i]);
        assert(pairs[i].0 != pairs.last().0);
    }
}

/// Taking one pair out of distinct pairs takes its key out of the map.
pub proof fn lemma_written_remove<A>(pairs: Seq<(Seq<char>, A)>, i: int)
    requires
        distinct_keys(pairs),
        0 <= i < pairs.len(),
    ensures
        distinct_keys(pairs.remove(i)),
        written(Map::empty(), pairs.remove(i)) == written(Map::empty(), pairs).remove(pairs[i].0),
    decreases pairs.len(),
{
    let rest = pairs.remove(i);
    assert(distinct_keys(rest)) by {
        assert forall|a: int, b: int| 0 <= a < b < rest.len() implies rest[a].0 != rest[b].0 by {
            let a2 = if a < i { a } else { a + 1 };
            let b2 = if b < i { b } else { b + 1 };
            assert(rest[a] == pairs[a2]);
            assert(rest[b] == pairs[b2]);
            assert(pairs[a2].0 != pairs[b2].0);
        }
    }
    let front = pairs.drop_last();
    if i == pairs.len() - 1 {
        assert(rest == front);
        assert(!written(Map::<Seq<char>, A>::empty(), front).contains_key(pairs[i].0)) by {
            lemma_written_keys(Map::<Seq<char>, A>::empty(), front, pairs[i].0);
            if exists|j: int| 0 <= j < front.len() && #[trigger] front[j].0 == pairs[i].0 {
                let j = choose|j: int| 0 <= j < front.len() && #[trigger] front[j].0 == pairs[i].0;
                assert(pairs[j].0 != pairs[i].0);
            }
        }
        assert(written(Map::empty(), front) == written(Map::empty(), pairs).remove(pairs[i].0));
    } else {
        assert(distinct_keys(front)) by {
            assert forall|a: int, b: int| 0 <= a < b < front.len() implies front[a].0
                != front[b].0 by {
                assert(pairs[a].0 != pairs[b].0);
            }
        }
        lemma_written_remove(front, i);
        assert(rest.drop_last() == front.remove(i));
        assert(rest.last() == pairs.last());
        assert(front[i] == pairs[i]);
        assert(pairs.last().0 != pairs[i].0);
        assert(written(Map::empty(), rest) == written(Map::empty(), pairs).remove(pairs[i].0));
    }
}

/// Distinct pairs give a map with as many keys as there are pairs.
pub proof fn lemma_written_len<A>(pairs: Seq<(Seq<char>, A)>)
    requires
        distinct_keys(pairs),
    ensures
        written(Map::empty(), pairs).dom().finite(),
        written(Map::empty(), pairs).len() == pairs.len(),
    decreases pairs.len(),
{
    if pairs.len() > 0 {
        let front = pairs.drop_last();
        assert(distinct_keys(front)) by {
            assert forall|a: int, b: int| 0 <= a < b < front.len() implies front[a].0
                != front[b].0 by {
                assert(pairs[a].0 != pairs[b].0);
            }
        }
        lemma_written_len(front);
        lemma_written_keys(Map::<Seq<char>, A>::empty(), front, pairs.last().0);
        if exists|j: int| 0 <= j < front.len() && #[trigger] front[j].0 == pairs.last().0 {
            let j = choose|j: int| 0 <= j < front.len() && #[trigger] front[j].0 == pairs.last().0;
            assert(pairs[j].0 != pairs[pairs.len() - 1].0);
        }
    }
}

/// The pairs with another key than `key`, in their order.
pub open spec fn without<A>(pairs: Seq<(Seq<char>, A)>, key: Seq<char>) -> Seq<(Seq<char>, A)> {
    pairs.filter(|p: (Seq<char>, A)| p.0 != key)
}

/// Pairs among which the key does not occur are all kept.
pub proof fn lemma_without_absent<A>(pairs: Seq<(Seq<char>, A)>, key: Seq<char>)
    requires
        forall|j: int| 0 <= j < pairs.len() ==> pairs[j].0 != key,
    ensures
        without(pairs, key) == pairs,
    decreases pairs.len(),
{
    reveal(Seq::filter);
    if pairs.len() > 0 {
        lemma_without_absent(pairs.drop_last(), key);
        assert(pairs.drop_last().push(pairs.last()) == pairs);
    }
}

/// Of distinct pairs, all but the one with the key are kept.
pub proof fn lemma_without_present<A>(pairs: Seq<(Seq<char>, A)>, i: int)
    requires
        distinct_keys(pairs),
        0 <= i < pairs.len(),
    ensures
        without(pairs, pairs[i].0) == pairs.remove(i),
    decreases pairs.len(),
{
    reveal(Seq::filter);
    let key = pairs[i].0;
    let front = pairs.drop_last();
    if i == pairs.len() - 1 {
        assert forall|j: int| 0 <= j < front.len() implies front[j].0 != key by {
            assert(pairs[j].0 != pairs[i].0);
        }
        lemma_without_absent(front, key);
        assert(pairs.remove(i) == front);
    } else {
        assert(distinct_keys(front)) by {
            assert forall|a: int, b: int| 0 <= a < b < front.len() implies front[a].0
                != front[b].0 by {
                assert(pairs[a].0 != pairs[b].0);
            }
        }
        lemma_without_present(front, i);
        assert(front[i] == pairs[i]);
        assert(pairs.last().0 != key);
        assert(pairs.remove(i) == front.remove(i).push(pairs.last()));
    }
}

/// The entries of a map, each by its view.
pub open spec fn pairs_of<V: View>(entries: Seq<(String, V)>) -> Seq<(Seq<char>, V::V)> {
    entries.map_values(|e: (String, V)| (e.0@, e.1@))
}

/// A map from text keys to values, in which the last write to a key wins.
#[derive(Debug)]
pub struct TextMap<V: View> {
    entries: Vec<(String, V)>,
}

impl<V: View> View for TextMap<V> {
    type V = Map<Seq<char>, V::V>;

    open spec fn view(&self) -> Map<Seq<char>, V::V> {
        written(Map::empty(), self.pairs())
    }
}

impl Clone for TextMap<String> {
    /// A map with the same entries in the same order.
    fn clone(&self) -> (copy: Self)
        ensures
            copy.pairs() == self.pairs(),
            copy@ == self@,
    {
        proof {
            use_type_invariant(self);
        }
        let mut entries: Vec<(String, String)> = Vec::new();
        let mut i: usize = 0;
        while i < self.entries.len()
            invariant
                i <= self.entries.len(),
                entries@.len() == i,
                forall|j: int|
                    0 <= j < i ==> (#[trigger] entries@[j]).0@ == self.entries@[j].0@
                        && entries@[j].1@ == self.entries@[j].1@,
            decreases self.entries.len() - i,
        {
            let key = self.entries[i].0.clone();
            let value = self.entries[i].1.clone();
            entries.push((key, value));
            i += 1;
        }
        assert(pairs_of(entries@) =~= self.pairs());
        TextMap { entries }
    }
}

impl<V: View> TextMap<V> {
    /// The entries in the order in which the map holds them, each by its view.
    pub closed spec fn pairs(&self) -> Seq<(Seq<char>, V::V)> {
        pairs_of(self.entries@)
    }

    #[verifier::type_invariant]
    spec fn unique(&self) -> bool {
        distinct_keys(self.pairs())
    }

    /// An empty map.
    pub fn new() -> (map: Self)
        ensures
            map@ == Map::<Seq<char>, V::V>::empty(),
            map.pairs() == Seq::<(Seq<char>, V::V)>::empty(),
    {
        let map = TextMap { entries: Vec::new() };
        assert(map.pairs() == Seq::<(Seq<char>, V::V)>::empty());
        map
    }

    /// The number of keys.
    pub fn len(&self) -> (n: usize)
        ensures
            n == self.pairs().len(),
            n == self@.len(),
            self@.dom().finite(),
            distinct_keys(self.pairs()),
    {
        proof {
            use_type_invariant(self);
            lemma_written_len(self.pairs());
        }
        self.entries.len()
    }

    /// Whether the map holds no key.
    pub fn is_empty(&self) -> (empty: bool)
        ensures
            empty == (self.pairs().len() == 0),
            empty == (self@ == Map::<Seq<char>, V::V>::empty()),
    {
        proof {
            use_type_invariant(self);
            lemma_written_len(self.pairs());
            if self.pairs().len() > 0 {
                lemma_written_value(self.pairs(), 0);
            }
        }
        self.entries.len() == 0
    }

    /// The position of `key` among the entries, if it is present.
    fn position(&self, key: &String) -> (found: Option<usize>)
        ensures
            distinct_keys(self.pairs()),
            match found {
                Some(i) => i < self.pairs().len() && self.pairs()[i as int].0 == key@,
                None => forall|j: int| 0 <= j < self.pairs().len() ==> self.pairs()[j].0 != key@,
            },
    {
        proof {
            use_type_invariant(self);
        }
        let mut i: usize = 0;
        while i < self.entries.len()
            invariant
                i <= self.entries.len(),
                self.entries@.len() == self.pairs().len(),
                distinct_keys(self.pairs()),
                forall|j: int| 0 <= j < i ==> self.pairs()[j].0 != key@,
            decreases self.entries.len() - i,
        {
            if self.entries[i].0 == *key {
                return Some(i);
            }
            i += 1;
        }
        None
    }

    /// Whether `key` is present.
    pub fn contains_key(&self, key: &str) -> (present: bool)
        ensures
            present == self@.contains_key(key@),
    {
        let owned = key.to_owned();
        let found = self.position(&owned);
        proof {
            lemma_written_keys(Map::empty(), self.pairs(), key@);
        }
        found.is_some()
    }

    /// The value written last under `key`, if there is one.
    pub fn get(&self, key: &str) -> (value: Option<&V>)
        ensures
            match value {
                Some(v) => self@.contains_key(key@) && self@[key@] == v@,
                None => !self@.contains_key(key@),
            },
    {
        let owned = key.to_owned();
        let found = self.position(&owned);
        proof {
            lemma_written_keys(Map::empty(), self.pairs(), key@);
        }
        match found {
            Some(i) => {
                proof {
                    lemma_written_value(self.pairs(), i as int);
                }
                Some(&self.entries[i].1)
            },
            None => None,
        }
    }

    /// Writes `value` under `key` and returns the value that it replaces.
    /// The written entry becomes the last one; the others keep their order.
    pub fn insert(&mut self, key: String, value: V) -> (replaced: Option<V>)
        ensures
            final(self)@ == old(self)@.insert(key@, value@),
            match replaced {
                Some(v) => old(self)@.contains_key(key@) && old(self)@[key@] == v@,
                None => !old(self)@.contains_key(key@),
            },
            final(self).pairs() == without(old(self).pairs(), key@).push((key@, value@)),
    {
        let found = self.position(&key);
        let ghost before = self.pairs();
        proof {
            lemma_written_keys(Map::empty(), before, key@);
        }
        let mut entries: Vec<(String, V)> = Vec::new();
        core::mem::swap(&mut self.entries, &mut entries);
        assert(pairs_of(entries@) == before);
        let replaced = match found {
            Some(i) => {
                proof {
                    lemma_written_value(before, i as int);
                    lemma_written_remove(before, i as int);
                }
                let entry = entries.remove(i);
                assert(pairs_of(entries@) == before.remove(i as int));
                proof {
                    lemma_without_present(before, i as int);
                }
                Some(entry.1)
            },
            None => {
                proof {
                    lemma_without_absent(before, key@);
                }
                None
            },
        };
        let ghost between = pairs_of(entries@);
        let ghost after = between.push((key@, value@));
        proof {
            lemma_written_keys(Map::empty(), between, key@);
            assert(written(Map::empty(), between) == written(Map::empty(), before).remove(key@));
            assert(after.drop_last() == between);
            assert(distinct_keys(after)) by {
                assert forall|a: int, b: int| 0 <= a < b < after.len() implies after[a].0
                    != after[b].0 by {
                    if b == after.len() - 1 {
                        assert(between[a].0 != key@);
                    } else {
                        assert(between[a].0 != between[b].0);
                    }
                }
            }
            assert(written(Map::empty(), after) == written(Map::empty(), before).insert(
                key@,
                value@,
            ));
        }
        entries.push((key, value));
        assert(pairs_of(entries@) == after);
        core::mem::swap(&mut self.entries, &mut entries);
        replaced
    }

    /// Takes `key` out of the map and returns its value. The other entries
    /// keep their order.
    pub fn remove(&mut self, key: &str) -> (removed: Option<V>)
        ensures
            final(self)@ == old(self)@.remove(key@),
            match removed {
                Some(v) => old(self)@.contains_key(key@) && old(self)@[key@] == v@,
                None => !old(self)@.contains_key(key@),
            },
            final(self).pairs() == without(old(self).pairs(), key@),
    {
        let owned = key.to_owned();
        let found = self.position(&owned);
        let ghost before = self.pairs();
        proof {
            lemma_written_keys(Map::empty(), before, key@);
        }
        match found {
            Some(i) => {
                proof {
                    lemma_written_value(before, i as int);
                    lemma_written_remove(before, i as int);
                }
                let mut entries: Vec<(String, V)> = Vec::new();
                core::mem::swap(&mut self.entries, &mut entries);
                assert(pairs_of(entries@) == before);
                let entry = entries.remove(i);
                assert(pairs_of(entries@) == before.remove(i as int));
                proof {
                    lemma_without_present(before, i as int);
                }
                core::mem::swap(&mut self.entries, &mut entries);
                Some(entry.1)
            },
            None => {
                assert(self@ == self@.remove(key@));
                proof {
                    lemma_without_absent(before, key@);
                }
                None
            },
        }
    }

    /// The key of the entry at position `i`.
    pub fn key_at(&self, i: usize) -> (key: &String)
        requires
            i < self.pairs().len(),
        ensures
            key@ == self.pairs()[i as int].0,
            self@.contains_key(key@),
    {
        proof {
            use_type_invariant(self);
            lemma_written_value(self.pairs(), i as int);
        }
        &self.entries[i].0
    }

    /// The value of the entry at position `i`.
    pub fn value_at(&self, i: usize) -> (value: &V)
        requires
            i < self.pairs().len(),
        ensures
            value@ == self.pairs()[i as int].1,
            self@[self.pairs()[i as int].0] == value@,
    {
        proof {
            use_type_invariant(self);
            lemma_written_value(self.pairs(), i as int);
        }
        &self.entries[i].1
    }
}

} // verus!
