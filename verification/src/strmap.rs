//! A verified map from `String` keys to arbitrary values, viewed as a
//! `Map<Seq<char>, V>`. Backed by a vector of key/value pairs with no
//! repeated keys.

use vstd::prelude::*;

use crate::strutil::str_eq;

verus! {

/// The map denoted by a pair list; a later pair for the same key wins.
pub open spec fn map_of<V>(pairs: Seq<(String, V)>) -> Map<Seq<char>, V>
    decreases pairs.len(),
{
    if pairs.len() == 0 {
        Map::<Seq<char>, V>::empty()
    } else {
        map_of(pairs.drop_last()).insert(pairs.last().0@, pairs.last().1)
    }
}

/// No two pairs share a key.
pub open spec fn distinct_keys<V>(pairs: Seq<(String, V)>) -> bool {
    forall|i: int, j: int|
        0 <= i < j < pairs.len() ==> pairs[i].0@ != pairs[j].0@
}

pub proof fn lemma_map_of_contains<V>(pairs: Seq<(String, V)>, k: Seq<char>)
    ensures
        map_of(pairs).contains_key(k) <==> exists|i: int|
            0 <= i < pairs.len() && pairs[i].0@ == k,
    decreases pairs.len(),
{
    if pairs.len() > 0 {
        lemma_map_of_contains(pairs.drop_last(), k);
        if pairs.last().0@ == k {
            assert(pairs[pairs.len() - 1].0@ == k);
        } else {
            if map_of(pairs).contains_key(k) {
                let i = choose|i: int|
                    0 <= i < pairs.drop_last().len() && pairs.drop_last()[i].0@ == k;
                assert(pairs[i].0@ == k);
            }
            if exists|i: int| 0 <= i < pairs.len() && pairs[i].0@ == k {
                let i = choose|i: int| 0 <= i < pairs.len() && pairs[i].0@ == k;
                assert(pairs.drop_last()[i].0@ == k);
            }
        }
    }
}

pub proof fn lemma_map_of_index<V>(pairs: Seq<(String, V)>, i: int)
    requires
        distinct_keys(pairs),
        0 <= i < pairs.len(),
    ensures
        map_of(pairs).contains_key(pairs[i].0@),
        map_of(pairs)[pairs[i].0@] == pairs[i].1,
    decreases pairs.len(),
{
    if i == pairs.len() - 1 {
        assert(pairs.last() == pairs[i]);
    } else {
        assert(distinct_keys(pairs.drop_last())) by {
            assert(forall|a: int, b: int|
                0 <= a < b < pairs.drop_last().len() ==> pairs.drop_last()[a].0@
                    != pairs.drop_last()[b].0@);
        }
        lemma_map_of_index(pairs.drop_last(), i);
        assert(pairs.drop_last()[i] == pairs[i]);
        assert(pairs.last().0@ != pairs[i].0@);
    }
}

pub proof fn lemma_map_of_remove<V>(pairs: Seq<(String, V)>, j: int)
    requires
        distinct_keys(pairs),
        0 <= j < pairs.len(),
    ensures
        map_of(pairs.remove(j)) =~= map_of(pairs).remove(pairs[j].0@),
    decreases pairs.len(),
{
    let k = pairs[j].0@;
    if j == pairs.len() - 1 {
        assert(pairs.remove(j) =~= pairs.drop_last());
        lemma_map_of_contains(pairs.drop_last(), k);
        assert(forall|i: int| 0 <= i < pairs.drop_last().len() ==> pairs.drop_last()[i].0@
            != k);
        assert(!map_of(pairs.drop_last()).contains_key(k));
        assert(map_of(pairs).remove(k) =~= map_of(pairs.drop_last()));
    } else {
        let shorter = pairs.drop_last();
        assert(distinct_keys(shorter)) by {
            assert(forall|a: int, b: int|
                0 <= a < b < shorter.len() ==> shorter[a].0@ != shorter[b].0@);
        }
        lemma_map_of_remove(shorter, j);
        assert(pairs.remove(j).drop_last() =~= shorter.remove(j));
        assert(pairs.remove(j).last() == pairs.last());
        assert(shorter[j] == pairs[j]);
        assert(pairs.last().0@ != k);
        assert(map_of(pairs.remove(j)) =~= map_of(shorter.remove(j)).insert(
            pairs.last().0@,
            pairs.last().1,
        ));
        assert(map_of(shorter).remove(k).insert(pairs.last().0@, pairs.last().1)
            =~= map_of(shorter).insert(pairs.last().0@, pairs.last().1).remove(k));
    }
}

/// An insert-only association map with `String` keys.
pub struct StrMap<V> {
    pairs: Vec<(String, V)>,
}

impl<V> StrMap<V> {
    /// The pairs currently stored, in insertion order.
    pub closed spec fn entries(&self) -> Seq<(String, V)> {
        self.pairs@
    }

    /// The abstract map held.
    pub closed spec fn as_map(&self) -> Map<Seq<char>, V> {
        map_of(self.pairs@)
    }

    /// Keys are never repeated in the entry list.
    pub closed spec fn wf(&self) -> bool {
        distinct_keys(self.pairs@)
    }

    pub proof fn lemma_entries_agree(&self)
        requires
            self.wf(),
        ensures
            forall|i: int|
                0 <= i < self.entries().len() ==> #[trigger] self.as_map().contains_key(
                    self.entries()[i].0@,
                ) && self.as_map()[self.entries()[i].0@] == self.entries()[i].1,
            forall|k: Seq<char>|
                self.as_map().contains_key(k) ==> exists|i: int|
                    0 <= i < self.entries().len() && #[trigger] self.entries()[i].0@ == k,
    {
        assert forall|i: int| 0 <= i < self.entries().len() implies
            #[trigger] self.as_map().contains_key(self.entries()[i].0@)
            && self.as_map()[self.entries()[i].0@] == self.entries()[i].1 by {
            lemma_map_of_index(self.pairs@, i);
        }
        assert forall|k: Seq<char>| self.as_map().contains_key(k) implies exists|i: int|
            0 <= i < self.entries().len() && #[trigger] self.entries()[i].0@ == k by {
            lemma_map_of_contains(self.pairs@, k);
            let i = choose|i: int| 0 <= i < self.pairs@.len() && self.pairs@[i].0@ == k;
            assert(self.entries()[i].0@ == k);
        }
    }

    /// Create an empty map.
    pub fn new() -> (r: Self)
        ensures
            r.as_map() == Map::<Seq<char>, V>::empty(),
            r.wf(),
            r.entries().len() == 0,
    {
        StrMap { pairs: Vec::new() }
    }

    /// Number of stored keys.
    pub fn entry_count(&self) -> (r: usize)
        ensures
            r == self.entries().len(),
    {
        self.pairs.len()
    }

    /// The pair at position `i` of the entry list.
    pub fn entry_at(&self, i: usize) -> (r: &(String, V))
        requires
            i < self.entries().len(),
        ensures
            *r == self.entries()[i as int],
    {
        &self.pairs[i]
    }

    /// Look a key up.
    pub fn get(&self, k: &str) -> (r: Option<&V>)
        requires
            self.wf(),
        ensures
            match r {
                Some(v) => self.as_map().contains_key(k@) && *v == self.as_map()[k@],
                None => !self.as_map().contains_key(k@),
            },
    {
        let mut i: usize = 0;
        while i < self.pairs.len()
            invariant
                self.wf(),
                0 <= i <= self.pairs@.len(),
                forall|j: int| 0 <= j < i ==> self.pairs@[j].0@ != k@,
            decreases self.pairs@.len() - i,
        {
            if str_eq(self.pairs[i].0.as_str(), k) {
                proof {
                    lemma_map_of_index(self.pairs@, i as int);
                }
                return Some(&self.pairs[i].1);
            }
            i += 1;
        }
        proof {
            lemma_map_of_contains(self.pairs@, k@);
        }
        None
    }

    /// True when the key is present.
    pub fn contains_key(&self, k: &str) -> (r: bool)
        requires
            self.wf(),
        ensures
            r == self.as_map().contains_key(k@),
    {
        self.get(k).is_some()
    }

    /// The map is the fold of its entry list.
    pub proof fn lemma_as_map_entries(&self)
        ensures
            self.as_map() == map_of(self.entries()),
    {
    }

    /// Remove a key's pair and hand its value out.
    pub fn take(&mut self, k: &str) -> (r: Option<V>)
        requires
            old(self).wf(),
        ensures
            final(self).wf(),
            final(self).as_map() == old(self).as_map().remove(k@),
            match r {
                Some(v) => old(self).as_map().contains_key(k@) && v == old(self).as_map()[k@],
                None => !old(self).as_map().contains_key(k@),
            },
    {
        let ghost orig = self.pairs@;
        let mut j: usize = 0;
        while j < self.pairs.len()
            invariant
                self.pairs@ == orig,
                orig == old(self).pairs@,
                distinct_keys(orig),
                0 <= j <= orig.len(),
                forall|t: int| 0 <= t < j ==> orig[t].0@ != k@,
            decreases orig.len() - j,
        {
            if str_eq(self.pairs[j].0.as_str(), k) {
                let (_, v) = self.pairs.remove(j);
                proof {
                    lemma_map_of_remove(orig, j as int);
                    lemma_map_of_index(orig, j as int);
                    assert(distinct_keys(orig.remove(j as int))) by {
                        assert(forall|a: int, b: int|
                            0 <= a < b < orig.remove(j as int).len()
                                ==> orig.remove(j as int)[a].0@ != orig.remove(j as int)[b].0@);
                    }
                }
                return Some(v);
            }
            j += 1;
        }
        proof {
            lemma_map_of_contains(orig, k@);
            assert(map_of(orig).remove(k@) =~= map_of(orig));
        }
        None
    }

    /// Insert a pair, replacing any pair already stored for the key.
    pub fn insert(&mut self, k: String, v: V)
        requires
            old(self).wf(),
        ensures
            final(self).wf(),
            final(self).as_map() == old(self).as_map().insert(k@, v),
    {
        let ghost orig = self.pairs@;
        let mut j: usize = 0;
        let mut found = false;
        while j < self.pairs.len() && !found
            invariant
                self.pairs@ == orig,
                0 <= j <= orig.len(),
                !found ==> forall|t: int| 0 <= t < j ==> orig[t].0@ != k@,
                found ==> j < orig.len() && orig[j as int].0@ == k@,
            decreases orig.len() - j, (if found { 0int } else { 1int }),
        {
            if str_eq(self.pairs[j].0.as_str(), k.as_str()) {
                found = true;
            } else {
                j += 1;
            }
        }
        if found {
            let _ = self.pairs.remove(j);
            proof {
                lemma_map_of_remove(orig, j as int);
                assert(distinct_keys(orig.remove(j as int))) by {
                    assert(forall|a: int, b: int|
                        0 <= a < b < orig.remove(j as int).len()
                            ==> orig.remove(j as int)[a].0@ != orig.remove(j as int)[b].0@);
                }
                lemma_map_of_contains(orig.remove(j as int), k@);
            }
        } else {
            proof {
                lemma_map_of_contains(orig, k@);
            }
        }
        let ghost trimmed = self.pairs@;
        self.pairs.push((k, v));
        proof {
            assert(self.pairs@.drop_last() =~= trimmed);
            assert(self.pairs@.last() == (k, v));
            assert(!map_of(trimmed).contains_key(k@)) by {
                lemma_map_of_contains(trimmed, k@);
                if found {
                } else {
                    if exists|i: int| 0 <= i < trimmed.len() && trimmed[i].0@ == k@ {
                        let i = choose|i: int|
                            0 <= i < trimmed.len() && trimmed[i].0@ == k@;
                    }
                }
            }
            assert(map_of(self.pairs@) =~= map_of(trimmed).insert(k@, v));
            if found {
                assert(map_of(trimmed) =~= map_of(orig).remove(k@));
                assert(map_of(orig).remove(k@).insert(k@, v) =~= map_of(orig).insert(k@, v));
            }
            assert forall|a: int, b: int|
                0 <= a < b < self.pairs@.len() implies self.pairs@[a].0@
                != self.pairs@[b].0@ by {
                lemma_map_of_contains(trimmed, self.pairs@[a].0@);
            }
        }
    }
}

} // verus!
