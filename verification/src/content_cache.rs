//! The content cache: file text keyed by path with a read timestamp,
//! expiring entries after a configured duration. The clock is handed in
//! as a value, and the disk read itself happens outside: a miss is
//! answered by storing freshly read text.

use vstd::prelude::*;

use crate::strmap::{map_of, StrMap};
use crate::ts_config::TSConfig;

verus! {

/// How much the cache holds.
pub struct CacheStats {
    pub total_entries: usize,
    pub total_size: usize,
}

/// Cached file text with the moment (in milliseconds) it was read.
pub struct CachedFileReader {
    cache: StrMap<(String, u64)>,
    cache_duration: u64,
}

/// The byte sizes of all cached texts, summed.
pub open spec fn spec_total_size(es: Seq<(String, (String, u64))>) -> nat
    decreases es.len(),
{
    if es.len() == 0 {
        0
    } else {
        (spec_total_size(es.drop_last()) + es.last().1.0@.len()) as nat
    }
}

impl CachedFileReader {
    /// Text and timestamp per path.
    pub closed spec fn contents(&self) -> Map<Seq<char>, (String, u64)> {
        self.cache.as_map()
    }

    /// How long an entry stays fresh, in milliseconds.
    pub closed spec fn duration(&self) -> u64 {
        self.cache_duration
    }

    pub closed spec fn wf(&self) -> bool {
        self.cache.wf()
    }

    /// An entry read at `stamp` is fresh at `now` when less than the
    /// configured duration has passed (a clock that moved backwards
    /// counts as expired).
    pub open spec fn spec_fresh(&self, stamp: u64, now: u64) -> bool {
        stamp <= now && now - stamp < self.duration()
    }

    pub fn new(cache_duration: u64) -> (r: Self)
        ensures
            r.wf(),
            r.contents() == Map::<Seq<char>, (String, u64)>::empty(),
            r.duration() == cache_duration,
    {
        CachedFileReader { cache: StrMap::new(), cache_duration }
    }

    /// The cached text for a path, if it is still fresh at `now`.
    pub fn get_cached(&self, path: &str, now: u64) -> (r: Option<String>)
        requires
            self.wf(),
        ensures
            match r {
                Some(text) => self.contents().contains_key(path@) && self.spec_fresh(
                    self.contents()[path@].1,
                    now,
                ) && text == self.contents()[path@].0,
                None => !(self.contents().contains_key(path@) && self.spec_fresh(
                    self.contents()[path@].1,
                    now,
                )),
            },
    {
        match self.cache.get(path) {
            Some(entry) => {
                let stamp = entry.1;
                if stamp <= now && now - stamp < self.cache_duration {
                    Some(entry.0.clone())
                } else {
                    None
                }
            },
            None => None,
        }
    }

    /// Store freshly read text for a path at time `now`.
    pub fn store(&mut self, path: String, content: String, now: u64)
        requires
            old(self).wf(),
        ensures
            final(self).wf(),
            final(self).contents() == old(self).contents().insert(path@, (content, now)),
            final(self).duration() == old(self).duration(),
    {
        self.cache.insert(path, (content, now));
    }

    /// Drop a path's entry.
    pub fn remove_from_cache(&mut self, path: &str)
        requires
            old(self).wf(),
        ensures
            final(self).wf(),
            final(self).contents() == old(self).contents().remove(path@),
            final(self).duration() == old(self).duration(),
    {
        let _ = self.cache.take(path);
    }

    /// Entry count and total cached bytes (saturated at the machine
    /// limit).
    pub fn get_cache_stats(&self) -> (r: CacheStats)
        requires
            self.wf(),
        ensures
            r.total_entries == self.cache_entry_count(),
            spec_total_size(self.cache_entries()) <= usize::MAX ==> r.total_size
                == spec_total_size(self.cache_entries()),
    {
        let total_entries = self.cache.entry_count();
        let mut total_size: usize = 0;
        let mut i: usize = 0;
        proof {
            assert(self.cache.entries().take(0) =~= Seq::<(String, (String, u64))>::empty());
        }
        while i < total_entries
            invariant
                self.wf(),
                0 <= i <= self.cache.entries().len(),
                total_entries == self.cache.entries().len(),
                spec_total_size(self.cache.entries().take(i as int)) <= usize::MAX
                    ==> total_size == spec_total_size(self.cache.entries().take(i as int)),
                total_size <= spec_total_size(self.cache.entries().take(i as int)),
            decreases total_entries - i,
        {
            let entry = self.cache.entry_at(i);
            let size = entry.1.0.as_str().unicode_len();
            proof {
                assert(self.cache.entries().take(i as int + 1).drop_last()
                    =~= self.cache.entries().take(i as int));
                assert(self.cache.entries().take(i as int + 1).last()
                    == self.cache.entries()[i as int]);
            }
            if total_size <= usize::MAX - size {
                total_size = total_size + size;
            } else {
                total_size = usize::MAX;
            }
            i += 1;
        }
        proof {
            assert(self.cache.entries().take(self.cache.entries().len() as int)
                =~= self.cache.entries());
        }
        CacheStats { total_entries, total_size }
    }

    /// The entry list held.
    pub closed spec fn cache_entries(&self) -> Seq<(String, (String, u64))> {
        self.cache.entries()
    }

    /// The number of entries held.
    pub closed spec fn cache_entry_count(&self) -> nat {
        self.cache.entries().len()
    }

    /// A copy holding the same entries; in a run the cache is shared, and
    /// a copy stands in for another handle to equal contents.
    pub fn clone_cache(&self) -> (r: Self)
        requires
            self.wf(),
        ensures
            r.wf(),
            r.contents() == self.contents(),
            r.duration() == self.duration(),
    {
        let mut copy: StrMap<(String, u64)> = StrMap::new();
        let n = self.cache.entry_count();
        let mut i: usize = 0;
        while i < n
            invariant
                self.wf(),
                copy.wf(),
                n == self.cache.entries().len(),
                0 <= i <= n,
                copy.as_map() == map_of(self.cache.entries().take(i as int)),
            decreases n - i,
        {
            let entry = self.cache.entry_at(i);
            copy.insert(entry.0.clone(), (entry.1.0.clone(), entry.1.1));
            proof {
                let es = self.cache.entries();
                assert(es.take(i as int + 1).drop_last() =~= es.take(i as int));
                assert(es.take(i as int + 1).last() == es[i as int]);
            }
            i += 1;
        }
        proof {
            assert(self.cache.entries().take(self.cache.entries().len() as int)
                =~= self.cache.entries());
            self.cache.lemma_as_map_entries();
        }
        CachedFileReader { cache: copy, cache_duration: self.cache_duration }
    }
}

/// Parsed compiler configurations keyed by path, over a text cache.
pub struct TSConfigCache {
    reader: CachedFileReader,
    parsed_configs: StrMap<TSConfig>,
}

impl TSConfigCache {
    pub closed spec fn configs(&self) -> Map<Seq<char>, TSConfig> {
        self.parsed_configs.as_map()
    }

    pub closed spec fn wf(&self) -> bool {
        self.reader.wf() && self.parsed_configs.wf()
    }

    pub fn new(cache_duration: u64) -> (r: Self)
        ensures
            r.wf(),
            r.configs() == Map::<Seq<char>, TSConfig>::empty(),
            r.spec_text_cache().contents() == Map::<Seq<char>, (String, u64)>::empty(),
            r.spec_text_cache().duration() == cache_duration,
    {
        TSConfigCache {
            reader: CachedFileReader::new(cache_duration),
            parsed_configs: StrMap::new(),
        }
    }

    /// The text cache backing this configuration cache.
    pub fn text_cache(&self) -> (r: &CachedFileReader)
        ensures
            r.contents() == self.spec_text_cache().contents(),
            r.duration() == self.spec_text_cache().duration(),
            self.wf() ==> r.wf(),
    {
        &self.reader
    }

    pub closed spec fn spec_text_cache(&self) -> CachedFileReader {
        self.reader
    }

    /// The parsed configuration cached for a path, if any.
    pub fn get_config_cached(&self, path: &str) -> (r: Option<TSConfig>)
        requires
            self.wf(),
        ensures
            match r {
                Some(c) => self.configs().contains_key(path@) && c.model()
                    == self.configs()[path@].model(),
                None => !self.configs().contains_key(path@),
            },
    {
        match self.parsed_configs.get(path) {
            Some(c) => Some(c.clone()),
            None => None,
        }
    }

    /// Cache the configuration parsed for a path.
    pub fn store_config(&mut self, path: String, config: TSConfig)
        requires
            old(self).wf(),
        ensures
            final(self).wf(),
            final(self).configs() == old(self).configs().insert(path@, config),
    {
        self.parsed_configs.insert(path, config);
    }
}

} // verus!
