//! The cache engine: the entry store, the policy applied to it, and the
//! counters.

use crate::clock::unix_now;
use crate::counters::counts_new;
use crate::counters::counts_record;
use crate::counters::counts_scan;
use crate::counters::stored_counts;
use crate::digest::hex_digest;
use crate::digest::is_lower_hex;
use crate::digest::sha256_hex;
use crate::entry::expiry_passed;
use crate::entry::has_passed;
use crate::entry::tags_given;
use crate::entry::CacheEntry;
use crate::entry::EntryView;
use crate::json::is_table_of;
use crate::json::json_object;
use crate::json::to_json;
use crate::model::is_counter_name;
use crate::model::lemma_statistic_names;
use crate::model::CacheModel;
use crate::store::store_clear;
use crate::store::store_insert;
use crate::store::store_len;
use crate::store::store_new;
use crate::store::store_remove;
use crate::store::store_scan;
use crate::store::stored_entries;
use dashmap::DashMap;
use vstd::prelude::*;

verus! {

/// A bounded key/value cache with time-to-live expiry and
/// least-recently-used eviction.
///
/// Operations that change the cache take it by `&mut`, so that each is
/// one step from a state to the next; a cache shared between threads
/// goes behind a lock of the caller's choosing.
pub struct MicroserviceCache {
    storage: DashMap<String, CacheEntry>,
    max_size: usize,
    default_ttl: Option<u32>,
    stats: DashMap<String, u64>,
}

impl View for MicroserviceCache {
    type V = CacheModel;

    closed spec fn view(&self) -> CacheModel {
        CacheModel {
            entries: stored_entries(self.storage),
            max_size: self.max_size as nat,
            default_ttl: self.default_ttl,
            counters: stored_counts(self.stats),
        }
    }
}

/// Every entry is kept under the internal key of its original key.
pub open spec fn keyed_by_digest(entries: Map<Seq<char>, EntryView>) -> bool {
    forall|ik: Seq<char>| #[trigger]
        entries.contains_key(ik) ==> ik == sha256_hex(entries[ik].original_key)
}

impl MicroserviceCache {
    /// What holds of every cache between two operations: its state is
    /// well formed, and every entry is kept under the internal key of
    /// its original key.
    pub open spec fn wf(&self) -> bool {
        self@.wf() && keyed_by_digest(self@.entries)
    }

    #[verifier::type_invariant]
    spec fn inv(&self) -> bool {
        self.wf()
    }

    /// Makes an empty cache for at most `max_size` entries (10000 where
    /// none is given), whose writes fall back on `default_ttl_seconds`.
    pub fn new(max_size: Option<u32>, default_ttl_seconds: Option<u32>) -> (cache: Self)
        ensures
            cache@ == CacheModel::initial(max_size, default_ttl_seconds),
            cache.wf(),
    {
        let max_size = match max_size {
            Some(n) => n as usize,
            None => 10000,
        };
        MicroserviceCache {
            storage: store_new(),
            max_size,
            default_ttl: default_ttl_seconds,
            stats: counts_new(),
        }
    }

    /// Derives the internal key under which the entry for `key` is kept:
    /// 64 lowercase hexadecimal digits that depend on `key` alone.
    pub fn hash_key(&self, key: &str) -> (internal: String)
        ensures
            internal@ == sha256_hex(key@),
            internal@.len() == 64,
            forall|i: int| 0 <= i < 64 ==> is_lower_hex(#[trigger] internal@[i]),
    {
        hex_digest(key)
    }

    /// Writes `value` under `key` at the time the clock shows; see
    /// [`Self::set_at`].
    pub fn set(
        &mut self,
        key: String,
        value: String,
        ttl_seconds: Option<u32>,
        tags: Option<Vec<String>>,
    ) -> (stored: bool)
        ensures
            stored,
            exists|now: u64|
                old(self)@.sets_into(
                    final(self)@,
                    sha256_hex(key@),
                    #[trigger] EntryView::fresh(
                        value@,
                        old(self)@.effective_ttl(ttl_seconds),
                        tags_given(tags),
                        key@,
                        now,
                    ),
                ),
            old(self).wf(),
            final(self).wf(),
    {
        let now = unix_now();
        self.set_at(key, value, ttl_seconds, tags, now)
    }

    /// Writes `value` under `key` at time `now`, in place of what was
    /// stored under it. The entry lives for `ttl_seconds`, or for the
    /// default of the cache where none is given, or for ever where there
    /// is neither. A store that is at capacity loses one of its least
    /// recently accessed entries first. Always succeeds.
    pub fn set_at(
        &mut self,
        key: String,
        value: String,
        ttl_seconds: Option<u32>,
        tags: Option<Vec<String>>,
        now: u64,
    ) -> (stored: bool)
        ensures
            stored,
            old(self)@.sets_into(
                final(self)@,
                sha256_hex(key@),
                EntryView::fresh(
                    value@,
                    old(self)@.effective_ttl(ttl_seconds),
                    tags_given(tags),
                    key@,
                    now,
                ),
            ),
            old(self).wf(),
            final(self).wf(),
    {
        proof {
            use_type_invariant(&*self);
        }
        let key_hash = self.hash_key(key.as_str());
        let effective_ttl = match ttl_seconds {
            Some(ttl) => Some(ttl),
            None => self.default_ttl,
        };
        let tags = match tags {
            Some(tags) => tags,
            None => {
                let none: Vec<String> = Vec::new();
                assert(none.deep_view() =~= Seq::empty());
                none
            },
        };
        let entry = CacheEntry::new(value, effective_ttl, tags, key, now);
        if store_len(&self.storage) >= self.max_size {
            self.evict_lru();
        }
        let ghost mid = self@;
        proof {
            use_type_invariant(&*self);
        }
        store_insert(&mut self.storage, key_hash, entry);
        self.increment_stat("sets");
        true
    }

    /// Reads `key` at the time the clock shows; see [`Self::get_at`].
    pub fn get(&mut self, key: String) -> (found: Option<String>)
        ensures
            exists|now: u64|
                (final(self)@, found.deep_view()) == #[trigger] old(self)@.read(
                    sha256_hex(key@),
                    now,
                ),
            old(self).wf(),
            final(self).wf(),
    {
        let now = unix_now();
        self.get_at(key, now)
    }

    /// Reads `key` at time `now`. A stored entry that has expired is
    /// removed and counts as `expired_hits`; one that has not is
    /// touched and its value returned; an absent key is a miss.
    pub fn get_at(&mut self, key: String, now: u64) -> (found: Option<String>)
        ensures
            final(self)@ == old(self)@.read(sha256_hex(key@), now).0,
            found.deep_view() == old(self)@.read(sha256_hex(key@), now).1,
            old(self).wf(),
            final(self).wf(),
    {
        proof {
            use_type_invariant(&*self);
        }
        let key_hash = self.hash_key(key.as_str());
        match store_remove(&mut self.storage, key_hash.as_str()) {
            Some(entry) => {
                if entry.is_expired(now) {
                    self.increment_stat("expired_hits");
                    None
                } else {
                    let mut entry = entry;
                    entry.touch(now);
                    let value = entry.value.clone();
                    store_insert(&mut self.storage, key_hash, entry);
                    assert(self@.entries =~= old(self)@.entries.insert(key_hash@, entry@));
                    self.increment_stat("hits");
                    Some(value)
                }
            },
            None => {
                assert(self@.entries =~= old(self)@.entries);
                self.increment_stat("misses");
                None
            },
        }
    }

    /// Removes the entry stored under `key`, if there is one, and tells
    /// whether it did. Only a removal is counted.
    pub fn delete(&mut self, key: String) -> (removed: bool)
        ensures
            final(self)@ == old(self)@.delete(sha256_hex(key@)),
            removed == old(self)@.entries.contains_key(sha256_hex(key@)),
            !removed ==> final(self)@ == old(self)@,
            old(self).wf(),
            final(self).wf(),
    {
        proof {
            use_type_invariant(&*self);
        }
        let key_hash = self.hash_key(key.as_str());
        let removed = store_remove(&mut self.storage, key_hash.as_str()).is_some();
        if removed {
            self.increment_stat("deletes");
        } else {
            assert(self@.entries =~= old(self)@.entries);
        }
        removed
    }

    /// Takes the statistics as the text of a JSON object; see
    /// [`Self::stats_snapshot`] for its members.
    pub fn get_stats(&self) -> (text: String)
        ensures
            text@ == json_object(self@.stats()),
            self.wf(),
    {
        let pairs = self.stats_snapshot();
        to_json(&pairs)
    }

    /// Takes the statistics: every counter, the number of stored
    /// entries as `total_keys`, the capacity as `max_size` and, once a
    /// read has hit or missed, the hit rate as `hit_rate_percent`. The
    /// pairs come in no particular order.
    pub fn stats_snapshot(&self) -> (pairs: Vec<(String, u64)>)
        ensures
            is_table_of(pairs.deep_view(), self@.stats()),
            self.wf(),
    {
        proof {
            use_type_invariant(self);
            lemma_statistic_names();
        }
        let counted = counts_scan(&self.stats);
        let hits_name = "hits".to_owned();
        let misses_name = "misses".to_owned();
        let mut pairs: Vec<(String, u64)> = Vec::new();
        pairs.push(("total_keys".to_owned(), store_len(&self.storage) as u64));
        pairs.push(("max_size".to_owned(), self.max_size as u64));
        let ghost counters = self@.counters;
        let mut hits: u64 = 0;
        let mut misses: u64 = 0;
        let mut i: usize = 0;
        while i < counted.len()
            invariant
                i <= counted.len(),
                hits_name@ == "hits"@,
                misses_name@ == "misses"@,
                forall|m: int|
                    0 <= m < counted.len() ==> counters.contains_key((#[trigger] counted[m]).0@)
                        && counters[counted[m].0@] == counted[m].1,
                forall|m: int, n: int|
                    0 <= m < n < counted.len() ==> (#[trigger] counted[m]).0@ != (
                    #[trigger] counted[n]).0@,
                pairs.len() == i + 2,
                pairs[0].0@ == "total_keys"@,
                pairs[0].1 == self@.entries.len(),
                pairs[1].0@ == "max_size"@,
                pairs[1].1 == self@.max_size,
                forall|m: int|
                    0 <= m < i ==> (#[trigger] pairs[m + 2]).0@ == counted[m].0@ && pairs[m + 2].1
                        == counted[m].1,
                forall|m: int|
                    0 <= m < i && (#[trigger] counted[m]).0@ == "hits"@ ==> hits == counted[m].1,
                (forall|m: int| 0 <= m < i ==> (#[trigger] counted[m]).0@ != "hits"@) ==> hits
                    == 0,
                forall|m: int|
                    0 <= m < i && (#[trigger] counted[m]).0@ == "misses"@ ==> misses
                        == counted[m].1,
                (forall|m: int| 0 <= m < i ==> (#[trigger] counted[m]).0@ != "misses"@) ==> misses
                    == 0,
            decreases counted.len() - i,
        {
            let name = counted[i].0.clone();
            let count = counted[i].1;
            if name == hits_name {
                hits = count;
            }
            if name == misses_name {
                misses = count;
            }
            pairs.push((name, count));
            i += 1;
        }
        proof {
            if counters.contains_key("hits"@) {
                let m = choose|m: int|
                    0 <= m < counted.len() && (#[trigger] counted[m]).0@ == "hits"@;
                assert(hits == counted[m].1);
            }
            if counters.contains_key("misses"@) {
                let m = choose|m: int|
                    0 <= m < counted.len() && (#[trigger] counted[m]).0@ == "misses"@;
                assert(misses == counted[m].1);
            }
        }
        let total: u128 = hits as u128 + misses as u128;
        if total > 0 {
            assert(100 * hits / (hits + misses) <= 100) by (nonlinear_arith)
                requires
                    0 <= hits,
                    0 <= misses,
                    hits + misses > 0,
            ;
            let rate = (hits as u128 * 100 / total) as u64;
            pairs.push(("hit_rate_percent".to_owned(), rate));
        }
        proof {
            let table = pairs.deep_view();
            let fields = self@.stats();
            assert forall|n: int| 0 <= n < table.len() implies fields.contains_key(
                (#[trigger] table[n]).0,
            ) && fields[table[n].0] == table[n].1 && (2 <= n < counted.len() + 2
                ==> counters.contains_key(table[n].0)) by {
                if 2 <= n < counted.len() + 2 {
                    assert(pairs[(n - 2) + 2].0@ == counted[n - 2].0@);
                }
            }
            assert forall|m: int, n: int| 0 <= m < n < table.len() implies (#[trigger] table[m]).0
                != (#[trigger] table[n]).0 by {
                if 2 <= m && n < counted.len() + 2 {
                    assert(pairs[(m - 2) + 2].0@ == counted[m - 2].0@);
                    assert(pairs[(n - 2) + 2].0@ == counted[n - 2].0@);
                }
            }
            assert forall|name: Seq<char>| #[trigger] fields.contains_key(name) implies exists|
                n: int,
            |
                0 <= n < table.len() && (#[trigger] table[n]).0 == name by {
                if name == "total_keys"@ {
                    assert(table[0].0 == name);
                } else if name == "max_size"@ {
                    assert(table[1].0 == name);
                } else if name == "hit_rate_percent"@ {
                    assert(table[counted.len() + 2].0 == name);
                } else {
                    let m = choose|m: int|
                        0 <= m < counted.len() && (#[trigger] counted[m]).0@ == name;
                    assert(table[m + 2].0 == name);
                }
            }
        }
        pairs
    }

    /// Lists the original keys of the entries that have not expired at
    /// the time the clock shows; see [`Self::get_all_keys_at`].
    pub fn get_all_keys(&self) -> (keys: Vec<String>)
        ensures
            exists|now: u64| #[trigger] self@.lists(now, keys.deep_view()),
            keys.deep_view().no_duplicates(),
            self.wf(),
    {
        let now = unix_now();
        self.get_all_keys_at(now)
    }

    /// Lists the original keys of the entries that have not expired at
    /// time `now`, in no particular order. Expired entries are passed
    /// over, not removed.
    pub fn get_all_keys_at(&self, now: u64) -> (keys: Vec<String>)
        ensures
            self@.lists(now, keys.deep_view()),
            keys.deep_view().no_duplicates(),
            self.wf(),
    {
        proof {
            use_type_invariant(self);
        }
        let items = store_scan(&self.storage);
        let mut keys: Vec<String> = Vec::new();
        let ghost entries = self@.entries;
        let ghost mut from: Seq<int> = Seq::empty();
        let mut i: usize = 0;
        while i < items.len()
            invariant
                i <= items.len(),
                forall|m: int| 0 <= m < items.len() ==> (#[trigger] items[m]).describes(entries),
                forall|m: int, n: int|
                    0 <= m < n < items.len() ==> (#[trigger] items[m]).key@ != (
                    #[trigger] items[n]).key@,
                keys.len() == from.len(),
                forall|n: int| 0 <= n < from.len() ==> 0 <= #[trigger] from[n] < i,
                forall|n: int, p: int| 0 <= n < p < from.len() ==> from[n] < from[p],
                forall|n: int|
                    0 <= n < from.len() ==> !expiry_passed(
                        (#[trigger] items[from[n]]).expires_at,
                        now,
                    ),
                forall|n: int|
                    0 <= n < from.len() ==> (#[trigger] keys[n])@ == items[from[n]].original_key@,
                forall|m: int|
                    0 <= m < i && !expiry_passed((#[trigger] items[m]).expires_at, now)
                        ==> from.contains(m),
            decreases items.len() - i,
        {
            if !has_passed(items[i].expires_at, now) {
                keys.push(items[i].original_key.clone());
                proof {
                    let before = from;
                    from = from.push(i as int);
                    assert forall|m: int|
                        0 <= m < i + 1 && !expiry_passed(
                            (#[trigger] items[m]).expires_at,
                            now,
                        ) implies from.contains(m) by {
                        if m < i {
                            let n = choose|n: int| 0 <= n < before.len() && before[n] == m;
                            assert(from[n] == m);
                        } else {
                            assert(from[from.len() - 1] == m);
                        }
                    }
                }
            }
            i += 1;
        }
        proof {
            let iks = Seq::new(from.len(), |n: int| items[from[n]].key@);
            assert forall|ik: Seq<char>| #[trigger] iks.contains(ik) <==> self@.is_live(
                ik,
                now,
            ) by {
                if iks.contains(ik) {
                    let n = choose|n: int| 0 <= n < iks.len() && iks[n] == ik;
                    assert(items[from[n]].describes(entries));
                }
                if self@.is_live(ik, now) {
                    let m = choose|m: int| 0 <= m < items.len() && (#[trigger] items[m]).key@ == ik;
                    let n = choose|n: int| 0 <= n < from.len() && from[n] == m;
                    assert(iks[n] == ik);
                }
            }
            assert forall|n: int| 0 <= n < iks.len() implies #[trigger] keys.deep_view()[n]
                == entries[iks[n]].original_key by {
                assert(items[from[n]].describes(entries));
            }
            assert(self@.listed_by(iks, now, keys.deep_view()));
            assert forall|n: int, p: int|
                0 <= n < keys.len() && 0 <= p < keys.len() && n != p implies keys.deep_view()[n]
                != keys.deep_view()[p] by {
                assert(iks[n] != iks[p]);
            }
        }
        keys
    }

    /// Removes every entry and returns how many there were.
    pub fn flush(&mut self) -> (count: u32)
        ensures
            final(self)@ == old(self)@.flush(),
            count == old(self)@.entries.len(),
            final(self)@.entries.len() == 0,
            old(self).wf(),
            final(self).wf(),
    {
        proof {
            use_type_invariant(&*self);
        }
        let count = store_len(&self.storage) as u32;
        store_clear(&mut self.storage);
        self.increment_stat("flushes");
        count
    }

    fn increment_stat(&mut self, stat_name: &str)
        requires
            is_counter_name(stat_name@),
        ensures
            final(self)@ == old(self)@.bump(stat_name@),
    {
        proof {
            use_type_invariant(&*self);
        }
        counts_record(&mut self.stats, stat_name, 1);
    }

    fn evict_lru(&mut self)
        ensures
            old(self)@.evicts_into(final(self)@),
    {
        proof {
            use_type_invariant(&*self);
        }
        let items = store_scan(&self.storage);
        let mut oldest: Option<usize> = None;
        let mut i: usize = 0;
        while i < items.len()
            invariant
                i <= items.len(),
                match oldest {
                    Some(j) => j < i && forall|k: int|
                        0 <= k < i ==> items[j as int].last_accessed
                            <= (#[trigger] items[k]).last_accessed,
                    None => i == 0,
                },
            decreases items.len() - i,
        {
            match oldest {
                Some(j) => {
                    if items[i].last_accessed < items[j].last_accessed {
                        oldest = Some(i);
                    }
                },
                None => {
                    oldest = Some(i);
                },
            }
            i += 1;
        }
        match oldest {
            Some(j) => {
                let ghost victim = items[j as int].key@;
                proof {
                    let entries = self@.entries;
                    assert forall|other: Seq<char>| #[trigger]
                        entries.contains_key(other) implies entries[victim].last_accessed
                        <= entries[other].last_accessed by {
                        let k = choose|k: int|
                            0 <= k < items.len() && (#[trigger] items[k]).key@ == other;
                        assert(items[k].describes(entries));
                    }
                }
                store_remove(&mut self.storage, items[j].key.as_str());
                self.increment_stat("evictions");
                assert(self@ == old(self)@.evict(victim));
            },
            None => {
                proof {
                    let entries = self@.entries;
                    assert(entries.dom() =~= Set::empty());
                }
            },
        }
    }
}

} // verus!
