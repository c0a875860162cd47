//! The resolution cache: a two-level, insert-only map from specifier and
//! symbol name to the resolved import record.

use vstd::prelude::*;

use crate::imports::ResolvedImport;
use crate::strmap::{map_of, StrMap};

verus! {

/// Memoizes `(specifier, symbol name) -> ResolvedImport`.
pub struct ImportCache {
    cache: StrMap<StrMap<ResolvedImport>>,
}

impl ImportCache {
    /// The two-level mapping held.
    pub closed spec fn contents(&self) -> Map<Seq<char>, Map<Seq<char>, ResolvedImport>> {
        self.cache.as_map().map_values(|m: StrMap<ResolvedImport>| m.as_map())
    }

    /// Both levels keep their keys unique.
    pub closed spec fn wf(&self) -> bool {
        self.cache.wf() && forall|k: Seq<char>|
            self.cache.as_map().contains_key(k) ==> (#[trigger] self.cache.as_map()[k]).wf()
    }

    /// The record cached for a specifier and name, if any.
    pub open spec fn spec_get(&self, p: Seq<char>, n: Seq<char>) -> Option<ResolvedImport> {
        if self.contents().contains_key(p) && self.contents()[p].contains_key(n) {
            Some(self.contents()[p][n])
        } else {
            None
        }
    }

    /// An empty cache.
    pub fn new() -> (r: Self)
        ensures
            r.wf(),
            r.contents() == Map::<Seq<char>, Map<Seq<char>, ResolvedImport>>::empty(),
    {
        let r = ImportCache { cache: StrMap::new() };
        proof {
            assert(r.contents() =~= Map::<Seq<char>, Map<Seq<char>, ResolvedImport>>::empty());
        }
        r
    }

    /// Look up the record cached for a specifier and name.
    pub fn get(&self, import_path: &str, name: &str) -> (r: Option<ResolvedImport>)
        requires
            self.wf(),
        ensures
            match r {
                Some(v) => self.spec_get(import_path@, name@) == Some(v),
                None => self.spec_get(import_path@, name@) is None,
            },
    {
        match self.cache.get(import_path) {
            Some(inner) => match inner.get(name) {
                Some(v) => Some(v.clone()),
                None => None,
            },
            None => None,
        }
    }

    /// Cache a record under a specifier and name; an existing record for
    /// the pair is replaced.
    pub fn insert(&mut self, import_path: String, name: String, value: ResolvedImport)
        requires
            old(self).wf(),
        ensures
            final(self).wf(),
            final(self).contents() == old(self).contents().insert(
                import_path@,
                (if old(self).contents().contains_key(import_path@) {
                    old(self).contents()[import_path@]
                } else {
                    Map::<Seq<char>, ResolvedImport>::empty()
                }).insert(name@, value),
            ),
    {
        let ghost before = *self;
        let mut inner = match self.cache.take(import_path.as_str()) {
            Some(m) => m,
            None => StrMap::new(),
        };
        inner.insert(name, value);
        self.cache.insert(import_path, inner);
        proof {
            assert(self.contents() =~= old(self).contents().insert(
                import_path@,
                (if old(self).contents().contains_key(import_path@) {
                    old(self).contents()[import_path@]
                } else {
                    Map::<Seq<char>, ResolvedImport>::empty()
                }).insert(name@, value),
            ));
            assert forall|k: Seq<char>| self.cache.as_map().contains_key(k) implies (
            #[trigger] self.cache.as_map()[k]).wf() by {
                if k != import_path@ {
                    assert(before.cache.as_map().contains_key(k));
                    assert(self.cache.as_map()[k] == before.cache.as_map()[k]);
                }
            }
        }
    }

    /// A copy holding the same records; in a run the cache is shared, and
    /// a copy stands in for another handle to equal contents.
    pub fn clone_cache(&self) -> (r: Self)
        requires
            self.wf(),
        ensures
            r.wf(),
            r.contents() == self.contents(),
    {
        let mut out = ImportCache::new();
        let n = self.cache.entry_count();
        let mut i: usize = 0;
        proof {
            self.cache.lemma_entries_agree();
        }
        while i < n
            invariant
                self.wf(),
                out.wf(),
                n == self.cache.entries().len(),
                0 <= i <= n,
                out.contents() == map_of_inner(self.cache.entries().take(i as int)),
            decreases n - i,
        {
            let entry = self.cache.entry_at(i);
            proof {
                self.cache.lemma_entries_agree();
                let key = self.cache.entries()[i as int].0@;
                assert(self.cache.as_map().contains_key(key));
                assert(self.cache.as_map()[key].wf());
                assert(self.cache.as_map()[key] == self.cache.entries()[i as int].1);
            }
            let inner_copy = duplicate_inner(&entry.1);
            let ghost prev = out;
            let ghost icopy = inner_copy;
            out.cache.insert(entry.0.clone(), inner_copy);
            proof {
                let es = self.cache.entries();
                assert(es.take(i as int + 1).drop_last() =~= es.take(i as int));
                assert(es.take(i as int + 1).last() == es[i as int]);
                assert forall|k: Seq<char>| out.cache.as_map().contains_key(k) implies (
                #[trigger] out.cache.as_map()[k]).wf() by {
                    if k != es[i as int].0@ {
                        assert(prev.cache.as_map().contains_key(k));
                        assert(out.cache.as_map()[k] == prev.cache.as_map()[k]);
                    } else {
                        assert(out.cache.as_map()[k] == icopy);
                    }
                }
                assert(out.contents() =~= prev.contents().insert(es[i as int].0@, icopy.as_map()));
            }
            i += 1;
        }
        proof {
            let es = self.cache.entries();
            assert(es.take(es.len() as int) =~= es);
            self.cache.lemma_as_map_entries();
            lemma_map_of_inner_agrees(es);
            assert(out.contents() =~= self.contents());
        }
        out
    }
}

/// The fold of an entry list of inner maps, each inner map replaced by a
/// value-equal one.
pub open spec fn map_of_inner(pairs: Seq<(String, StrMap<ResolvedImport>)>) -> Map<
    Seq<char>,
    Map<Seq<char>, ResolvedImport>,
>
    decreases pairs.len(),
{
    if pairs.len() == 0 {
        Map::empty()
    } else {
        map_of_inner(pairs.drop_last()).insert(pairs.last().0@, pairs.last().1.as_map())
    }
}

proof fn lemma_map_of_inner_agrees(pairs: Seq<(String, StrMap<ResolvedImport>)>)
    ensures
        map_of_inner(pairs) =~= map_of(pairs).map_values(|m: StrMap<ResolvedImport>| m.as_map()),
    decreases pairs.len(),
{
    if pairs.len() > 0 {
        lemma_map_of_inner_agrees(pairs.drop_last());
    }
}

/// Copy one inner map record by record.
fn duplicate_inner(m: &StrMap<ResolvedImport>) -> (r: StrMap<ResolvedImport>)
    requires
        m.wf(),
    ensures
        r.wf(),
        r.as_map() == m.as_map(),
{
    let mut out = StrMap::<ResolvedImport>::new();
    let n = m.entry_count();
    let mut i: usize = 0;
    while i < n
        invariant
            m.wf(),
            out.wf(),
            n == m.entries().len(),
            0 <= i <= n,
            out.as_map() == map_of(m.entries().take(i as int)),
        decreases n - i,
    {
        let entry = m.entry_at(i);
        out.insert(entry.0.clone(), entry.1.clone());
        proof {
            let es = m.entries();
            assert(es.take(i as int + 1).drop_last() =~= es.take(i as int));
            assert(es.take(i as int + 1).last() == es[i as int]);
        }
        i += 1;
    }
    proof {
        assert(m.entries().take(m.entries().len() as int) =~= m.entries());
        m.lemma_as_map_entries();
    }
    out
}

} // verus!
