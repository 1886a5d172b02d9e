//! The mathematical state of a cache and what each operation makes of it.
//!
//! Entries are kept under their internal key. The functions below take
//! that key as it is; how it is derived from the key a caller gives is
//! no concern of theirs.

use crate::entry::counter_succ;
use crate::entry::EntryView;
use vstd::prelude::*;

verus! {

/// The names under which operations are counted.
pub open spec fn is_counter_name(name: Seq<char>) -> bool {
    ||| name == "sets"@
    ||| name == "hits"@
    ||| name == "misses"@
    ||| name == "expired_hits"@
    ||| name == "deletes"@
    ||| name == "evictions"@
    ||| name == "flushes"@
}

/// The names of the statistics that are not counters differ from one
/// another and from every counter's name.
pub proof fn lemma_statistic_names()
    ensures
        !is_counter_name("total_keys"@),
        !is_counter_name("max_size"@),
        !is_counter_name("hit_rate_percent"@),
        "total_keys"@ != "max_size"@,
        "total_keys"@ != "hit_rate_percent"@,
        "max_size"@ != "hit_rate_percent"@,
        "hits"@ != "misses"@,
{
    reveal_strlit("sets");
    reveal_strlit("hits");
    reveal_strlit("misses");
    reveal_strlit("expired_hits");
    reveal_strlit("deletes");
    reveal_strlit("evictions");
    reveal_strlit("flushes");
    reveal_strlit("total_keys");
    reveal_strlit("max_size");
    reveal_strlit("hit_rate_percent");
    assert("sets"@.len() == 4 && "hits"@.len() == 4 && "misses"@.len() == 6);
    assert("expired_hits"@.len() == 12 && "deletes"@.len() == 7);
    assert("evictions"@.len() == 9 && "flushes"@.len() == 7);
    assert("total_keys"@.len() == 10 && "max_size"@.len() == 8);
    assert("hit_rate_percent"@.len() == 16);
}

/// Mathematical value of a cache.
pub struct CacheModel {
    /// The entries, each under its internal key.
    pub entries: Map<Seq<char>, EntryView>,
    /// The capacity that writes keep the store within.
    pub max_size: nat,
    /// The time-to-live of an entry written without one.
    pub default_ttl: Option<u32>,
    /// The counters; a name that is absent has not been counted yet.
    pub counters: Map<Seq<char>, u64>,
}

impl CacheModel {
    /// The state of a cache that has just been made.
    pub open spec fn initial(max_size: Option<u32>, default_ttl: Option<u32>) -> CacheModel {
        CacheModel {
            entries: Map::empty(),
            max_size: match max_size {
                Some(n) => n as nat,
                None => 10000,
            },
            default_ttl,
            counters: Map::empty(),
        }
    }

    /// The largest number of entries a cache ever holds between two
    /// operations: its capacity, or one where the capacity is zero,
    /// since a write always stores its entry.
    pub open spec fn size_bound(self) -> nat {
        if self.max_size == 0 {
            1
        } else {
            self.max_size
        }
    }

    /// What holds of every cache between two operations.
    pub open spec fn wf(self) -> bool {
        &&& self.entries.dom().finite()
        &&& self.counters.dom().finite()
        &&& self.entries.len() <= self.size_bound()
        &&& self.max_size <= u32::MAX
        &&& forall|ik: Seq<char>| #[trigger]
            self.entries.contains_key(ik) ==> self.entries[ik].wf()
        &&& forall|name: Seq<char>| #[trigger]
            self.counters.contains_key(name) ==> is_counter_name(name)
    }

    /// The reading of a counter.
    pub open spec fn count(self, name: Seq<char>) -> u64 {
        if self.counters.contains_key(name) {
            self.counters[name]
        } else {
            0
        }
    }

    /// The state after `name` was counted once more.
    pub open spec fn bump(self, name: Seq<char>) -> CacheModel {
        CacheModel {
            counters: self.counters.insert(
                name,
                if self.counters.contains_key(name) {
                    counter_succ(self.counters[name])
                } else {
                    1
                },
            ),
            ..self
        }
    }

    /// The time-to-live that a write gives its entry.
    pub open spec fn effective_ttl(self, ttl_seconds: Option<u32>) -> Option<u32> {
        match ttl_seconds {
            Some(ttl) => Some(ttl),
            None => self.default_ttl,
        }
    }

    /// No stored entry was accessed earlier than the one under `ik`.
    pub open spec fn is_oldest(self, ik: Seq<char>) -> bool {
        &&& self.entries.contains_key(ik)
        &&& forall|other: Seq<char>| #[trigger]
            self.entries.contains_key(other) ==> self.entries[ik].last_accessed
                <= self.entries[other].last_accessed
    }

    /// The state after the entry under `victim` was evicted.
    pub open spec fn evict(self, victim: Seq<char>) -> CacheModel {
        CacheModel { entries: self.entries.remove(victim), ..self }.bump("evictions"@)
    }

    /// An eviction may turn this state into `next`: it removes one of
    /// the entries accessed least recently, whichever, and leaves an
    /// empty store as it is.
    pub open spec fn evicts_into(self, next: CacheModel) -> bool {
        if self.entries.len() == 0 {
            next == self
        } else {
            exists|victim: Seq<char>| self.is_oldest(victim) && next == self.evict(victim)
        }
    }

    /// The state after `entry` was stored under `ik`.
    pub open spec fn put(self, ik: Seq<char>, entry: EntryView) -> CacheModel {
        CacheModel { entries: self.entries.insert(ik, entry), ..self }.bump("sets"@)
    }

    /// A write of `entry` under `ik` may turn this state into `next`:
    /// where the store is at capacity an eviction comes first.
    pub open spec fn sets_into(self, next: CacheModel, ik: Seq<char>, entry: EntryView) -> bool {
        if self.entries.len() >= self.max_size {
            exists|mid: CacheModel| self.evicts_into(mid) && next == mid.put(ik, entry)
        } else {
            next == self.put(ik, entry)
        }
    }

    /// The state after a read of `ik` at time `now`, and the value read.
    pub open spec fn read(self, ik: Seq<char>, now: u64) -> (CacheModel, Option<Seq<char>>) {
        if !self.entries.contains_key(ik) {
            (self.bump("misses"@), None)
        } else if self.entries[ik].is_expired(now) {
            (CacheModel { entries: self.entries.remove(ik), ..self }.bump("expired_hits"@), None)
        } else {
            (
                CacheModel {
                    entries: self.entries.insert(ik, self.entries[ik].touched(now)),
                    ..self
                }.bump("hits"@),
                Some(self.entries[ik].value),
            )
        }
    }

    /// The state after the entry under `ik` was deleted; only a
    /// deletion that removed something is counted.
    pub open spec fn delete(self, ik: Seq<char>) -> CacheModel {
        if self.entries.contains_key(ik) {
            CacheModel { entries: self.entries.remove(ik), ..self }.bump("deletes"@)
        } else {
            self
        }
    }

    /// The state after all entries were dropped.
    pub open spec fn flush(self) -> CacheModel {
        CacheModel { entries: Map::empty(), ..self }.bump("flushes"@)
    }

    /// The entry under `ik` is stored and has not expired at `now`.
    pub open spec fn is_live(self, ik: Seq<char>, now: u64) -> bool {
        self.entries.contains_key(ik) && !self.entries[ik].is_expired(now)
    }

    /// `key` is the original key of an entry that is live at `now`.
    pub open spec fn names_live_entry(self, key: Seq<char>, now: u64) -> bool {
        exists|ik: Seq<char>| #[trigger]
            self.is_live(ik, now) && self.entries[ik].original_key == key
    }

    /// The internal keys of the entries that are live at `now`.
    pub open spec fn live_keys(self, now: u64) -> Set<Seq<char>> {
        Set::new(|ik: Seq<char>| self.is_live(ik, now))
    }

    /// `keys` are the original keys of the entries under `iks`, in
    /// that order, and `iks` are the live entries, each once.
    pub open spec fn listed_by(
        self,
        iks: Seq<Seq<char>>,
        now: u64,
        keys: Seq<Seq<char>>,
    ) -> bool {
        &&& iks.no_duplicates()
        &&& forall|ik: Seq<char>| #[trigger] iks.contains(ik) <==> self.is_live(ik, now)
        &&& keys.len() == iks.len()
        &&& forall|i: int|
            0 <= i < iks.len() ==> #[trigger] keys[i] == self.entries[iks[i]].original_key
    }

    /// `keys` is a listing at time `now`: the original key of every
    /// live entry, once for each entry, in some order.
    pub open spec fn lists(self, now: u64, keys: Seq<Seq<char>>) -> bool {
        exists|iks: Seq<Seq<char>>| self.listed_by(iks, now, keys)
    }

    /// The share of reads that found a stored key, in percent and
    /// rounded down; none before the first such read or miss.
    pub open spec fn hit_rate_percent(self) -> Option<u64> {
        let hits = self.count("hits"@);
        let misses = self.count("misses"@);
        if hits + misses > 0 {
            Some((100 * hits / (hits + misses)) as u64)
        } else {
            None
        }
    }

    /// The statistics: every counter, the number of stored entries, the
    /// capacity and, where there is one, the hit rate.
    pub open spec fn stats(self) -> Map<Seq<char>, u64> {
        let base = self.counters.insert("total_keys"@, self.entries.len() as u64).insert(
            "max_size"@,
            self.max_size as u64,
        );
        match self.hit_rate_percent() {
            Some(rate) => base.insert("hit_rate_percent"@, rate),
            None => base,
        }
    }
}

} // verus!
