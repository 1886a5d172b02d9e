//! What holds of every cache, proved from the model of its operations.

use crate::entry::counter_succ;
use crate::entry::EntryView;
use crate::model::lemma_statistic_names;
use crate::model::CacheModel;
use vstd::set_lib::lemma_len_subset;
use vstd::prelude::*;

verus! {

/// A write stores its entry under its key, whatever it evicts.
pub proof fn law_write_stores(s: CacheModel, next: CacheModel, ik: Seq<char>, entry: EntryView)
    requires
        s.sets_into(next, ik, entry),
    ensures
        next.entries.contains_key(ik),
        next.entries[ik] == entry,
        next.max_size == s.max_size,
        next.default_ttl == s.default_ttl,
{
}

/// A value written without a time-to-live, by a cache that has no
/// default one, is read back at any time.
pub proof fn law_read_after_write(
    s: CacheModel,
    next: CacheModel,
    ik: Seq<char>,
    value: Seq<char>,
    tags: Seq<Seq<char>>,
    original_key: Seq<char>,
    written_at: u64,
    read_at: u64,
)
    requires
        s.default_ttl is None,
        s.sets_into(
            next,
            ik,
            EntryView::fresh(value, s.effective_ttl(None), tags, original_key, written_at),
        ),
    ensures
        next.read(ik, read_at).1 == Some(value),
{
    law_write_stores(
        s,
        next,
        ik,
        EntryView::fresh(value, s.effective_ttl(None), tags, original_key, written_at),
    );
}

/// A value written with a time-to-live of `ttl` seconds is read back up
/// to and including the instant `written_at + ttl`; a read after that
/// finds nothing and removes the entry.
pub proof fn law_time_to_live(
    s: CacheModel,
    next: CacheModel,
    ik: Seq<char>,
    value: Seq<char>,
    ttl_seconds: Option<u32>,
    ttl: u32,
    tags: Seq<Seq<char>>,
    original_key: Seq<char>,
    written_at: u64,
    read_at: u64,
)
    requires
        s.effective_ttl(ttl_seconds) == Some(ttl),
        s.sets_into(
            next,
            ik,
            EntryView::fresh(value, s.effective_ttl(ttl_seconds), tags, original_key, written_at),
        ),
    ensures
        read_at <= written_at + ttl ==> next.read(ik, read_at).1 == Some(value),
        read_at > written_at + ttl ==> next.read(ik, read_at).1 is None,
        read_at > written_at + ttl ==> !next.read(ik, read_at).0.entries.contains_key(ik),
{
    law_write_stores(
        s,
        next,
        ik,
        EntryView::fresh(value, s.effective_ttl(ttl_seconds), tags, original_key, written_at),
    );
}

/// An entry is created unread, and a read at or after its creation
/// leaves its last access at or after its creation.
pub proof fn law_access_follows_creation(
    value: Seq<char>,
    ttl_seconds: Option<u32>,
    tags: Seq<Seq<char>>,
    original_key: Seq<char>,
    written_at: u64,
    read_at: u64,
)
    ensures
        EntryView::fresh(value, ttl_seconds, tags, original_key, written_at).wf(),
        EntryView::fresh(value, ttl_seconds, tags, original_key, written_at).last_accessed
            == written_at,
        written_at <= read_at ==> written_at <= EntryView::fresh(
            value,
            ttl_seconds,
            tags,
            original_key,
            written_at,
        ).touched(read_at).last_accessed,
{
}

/// Counting keeps a cache well formed, and changes nothing but the
/// counter.
pub proof fn law_bump_keeps_wf(s: CacheModel, name: Seq<char>)
    requires
        s.wf(),
        crate::model::is_counter_name(name),
    ensures
        s.bump(name).wf(),
        s.bump(name).entries == s.entries,
        s.bump(name).count(name) == counter_succ(s.count(name)),
{
}

/// An eviction keeps a cache well formed and removes exactly one entry
/// from a store that holds any.
pub proof fn law_eviction_removes_one(s: CacheModel, next: CacheModel)
    requires
        s.wf(),
        s.evicts_into(next),
    ensures
        next.wf(),
        s.entries.len() > 0 ==> next.entries.len() == s.entries.len() - 1,
        s.entries.len() == 0 ==> next == s,
{
}

/// A write keeps a cache well formed: in particular the store never
/// holds more entries than the capacity allows.
pub proof fn law_write_keeps_capacity(
    s: CacheModel,
    next: CacheModel,
    ik: Seq<char>,
    entry: EntryView,
)
    requires
        s.wf(),
        entry.wf(),
        s.sets_into(next, ik, entry),
    ensures
        next.wf(),
        next.entries.len() <= next.size_bound(),
        s.max_size >= 1 ==> next.entries.len() <= s.max_size,
{
    if s.entries.len() >= s.max_size {
        let mid = choose|mid: CacheModel| s.evicts_into(mid) && next == mid.put(ik, entry);
        law_eviction_removes_one(s, mid);
    }
}

/// A write under a key that is already stored replaces its entry and
/// does not make the store larger.
pub proof fn law_write_replaces(s: CacheModel, next: CacheModel, ik: Seq<char>, entry: EntryView)
    requires
        s.wf(),
        s.entries.contains_key(ik),
        s.sets_into(next, ik, entry),
    ensures
        next.entries[ik] == entry,
        next.entries.len() <= s.entries.len(),
{
    if s.entries.len() >= s.max_size {
        let mid = choose|mid: CacheModel| s.evicts_into(mid) && next == mid.put(ik, entry);
        law_eviction_removes_one(s, mid);
    }
}

/// A read keeps a cache well formed and never makes the store larger.
pub proof fn law_read_keeps_wf(s: CacheModel, ik: Seq<char>, now: u64)
    requires
        s.wf(),
    ensures
        s.read(ik, now).0.wf(),
        s.read(ik, now).0.entries.len() <= s.entries.len(),
        s.read(ik, now).1 is Some <==> s.is_live(ik, now),
{
}

/// Deleting an absent key changes nothing, the counter of deletions
/// included; deleting a stored key removes it and counts once.
pub proof fn law_delete_counts_removals(s: CacheModel, ik: Seq<char>)
    ensures
        !s.entries.contains_key(ik) ==> s.delete(ik) == s,
        s.entries.contains_key(ik) ==> !s.delete(ik).entries.contains_key(ik),
        s.entries.contains_key(ik) ==> s.delete(ik).count("deletes"@) == counter_succ(
            s.count("deletes"@),
        ),
        s.entries.contains_key(ik) && s.count("deletes"@) < u64::MAX ==> s.delete(ik).count(
            "deletes"@,
        ) == s.count("deletes"@) + 1,
        s.wf() ==> s.delete(ik).wf(),
{
}

/// A flush leaves the store empty and is counted once.
pub proof fn law_flush_empties(s: CacheModel)
    ensures
        s.flush().entries.len() == 0,
        forall|ik: Seq<char>| !s.flush().entries.contains_key(ik),
        s.flush().count("flushes"@) == counter_succ(s.count("flushes"@)),
        s.wf() ==> s.flush().wf(),
{
}

/// A listing has one key for each live entry, each the original key of
/// such an entry, and so never more keys than the store has entries.
pub proof fn law_listing_is_of_live_entries(s: CacheModel, now: u64, keys: Seq<Seq<char>>)
    requires
        s.wf(),
        s.lists(now, keys),
    ensures
        keys.len() == s.live_keys(now).len(),
        keys.len() <= s.entries.len(),
        forall|i: int| 0 <= i < keys.len() ==> s.names_live_entry(#[trigger] keys[i], now),
{
    let iks = choose|iks: Seq<Seq<char>>| s.listed_by(iks, now, keys);
    iks.unique_seq_to_set();
    assert(iks.to_set() =~= s.live_keys(now));
    lemma_len_subset(s.live_keys(now), s.entries.dom());
    assert forall|i: int| 0 <= i < keys.len() implies s.names_live_entry(
        #[trigger] keys[i],
        now,
    ) by {
        assert(iks.contains(iks[i]));
    }
}

/// The hit rate is present from the first read that hit or missed, and
/// is then the share of hits in percent, rounded down; the other
/// statistics are the size of the store, the capacity and the counters.
pub proof fn law_statistics(s: CacheModel)
    requires
        s.wf(),
    ensures
        s.count("hits"@) + s.count("misses"@) == 0 ==> !s.stats().contains_key(
            "hit_rate_percent"@,
        ),
        s.count("hits"@) + s.count("misses"@) > 0 ==> s.stats().contains_key("hit_rate_percent"@)
            && s.stats()["hit_rate_percent"@] == 100 * s.count("hits"@) / (s.count("hits"@)
            + s.count("misses"@)),
        s.stats().contains_key("total_keys"@) && s.stats()["total_keys"@] == s.entries.len(),
        s.stats().contains_key("max_size"@) && s.stats()["max_size"@] == s.max_size,
        forall|name: Seq<char>| #[trigger]
            s.counters.contains_key(name) ==> s.stats().contains_key(name) && s.stats()[name]
                == s.counters[name],
{
    lemma_statistic_names();
    let hits = s.count("hits"@);
    let misses = s.count("misses"@);
    if hits + misses > 0 {
        assert(0 <= 100 * hits / (hits + misses) <= 100) by (nonlinear_arith)
            requires
                0 <= hits,
                0 <= misses,
                hits + misses > 0,
        ;
    }
}

/// The states of a cache through a run of writes: each comes from the
/// one before by the write of one entry under one key.
pub open spec fn is_write_run(
    states: Seq<CacheModel>,
    iks: Seq<Seq<char>>,
    entries: Seq<EntryView>,
) -> bool {
    &&& states.len() == iks.len() + 1
    &&& entries.len() == iks.len()
    &&& forall|i: int|
        0 <= i < iks.len() ==> (#[trigger] states[i]).sets_into(states[i + 1], iks[i], entries[i])
}

/// What a store holds after the first `n` writes of a run in which
/// nothing was evicted.
pub open spec fn written(iks: Seq<Seq<char>>, entries: Seq<EntryView>, n: nat) -> Map<
    Seq<char>,
    EntryView,
>
    decreases n,
{
    if n == 0 {
        Map::empty()
    } else {
        written(iks, entries, (n - 1) as nat).insert(iks[n - 1], entries[n - 1])
    }
}

proof fn lemma_written(iks: Seq<Seq<char>>, entries: Seq<EntryView>, n: nat)
    requires
        n <= iks.len(),
        iks.len() == entries.len(),
        iks.no_duplicates(),
    ensures
        written(iks, entries, n).dom().finite(),
        written(iks, entries, n).len() == n,
        forall|ik: Seq<char>| #[trigger]
            written(iks, entries, n).contains_key(ik) <==> exists|j: int|
                0 <= j < n && iks[j] == ik,
        forall|j: int|
            0 <= j < n ==> written(iks, entries, n)[#[trigger] iks[j]] == entries[j],
    decreases n,
{
    if n > 0 {
        lemma_written(iks, entries, (n - 1) as nat);
    }
}

proof fn lemma_fill(
    states: Seq<CacheModel>,
    iks: Seq<Seq<char>>,
    entries: Seq<EntryView>,
    capacity: nat,
    n: nat,
)
    requires
        n <= capacity < iks.len(),
        iks.no_duplicates(),
        is_write_run(states, iks, entries),
        states[0].entries == Map::<Seq<char>, EntryView>::empty(),
        states[0].max_size == capacity,
    ensures
        states[n as int].entries == written(iks, entries, n),
        states[n as int].max_size == capacity,
    decreases n,
{
    if n > 0 {
        lemma_fill(states, iks, entries, capacity, (n - 1) as nat);
        lemma_written(iks, entries, (n - 1) as nat);
    }
}

/// Into a new cache of capacity `capacity`, write `capacity + 1`
/// entries under keys that all differ, the first of them accessed
/// before each of the others. Then the store never holds more than
/// `capacity` entries, and the last write evicts the first entry and
/// no other.
pub proof fn law_first_written_is_first_evicted(
    capacity: u32,
    default_ttl: Option<u32>,
    states: Seq<CacheModel>,
    iks: Seq<Seq<char>>,
    entries: Seq<EntryView>,
)
    requires
        capacity >= 1,
        iks.len() == capacity + 1,
        iks.no_duplicates(),
        is_write_run(states, iks, entries),
        states[0] == CacheModel::initial(Some(capacity), default_ttl),
        forall|i: int|
            1 <= i <= capacity ==> entries[0].last_accessed < (#[trigger] entries[i]).last_accessed,
    ensures
        forall|i: int| 0 <= i < states.len() ==> (#[trigger] states[i]).entries.len() <= capacity,
        !states.last().entries.contains_key(iks[0]),
        forall|i: int|
            1 <= i <= capacity ==> states.last().entries.contains_key(#[trigger] iks[i])
                && states.last().entries[iks[i]] == entries[i],
        states.last().entries.len() == capacity,
{
    let full = states[capacity as int];
    let last = states.last();
    assert forall|i: int| 0 <= i <= capacity implies (#[trigger] states[i]).entries.len()
        == i by {
        lemma_fill(states, iks, entries, capacity as nat, i as nat);
        lemma_written(iks, entries, i as nat);
    }
    lemma_fill(states, iks, entries, capacity as nat, capacity as nat);
    lemma_written(iks, entries, capacity as nat);
    let mid = choose|mid: CacheModel|
        full.evicts_into(mid) && last == mid.put(iks[capacity as int], entries[capacity as int]);
    let victim = choose|victim: Seq<char>| full.is_oldest(victim) && mid == full.evict(victim);
    let j = choose|j: int| 0 <= j < capacity && iks[j] == victim;
    assert(full.entries.contains_key(iks[0]));
    assert(j == 0);
}

/// After a read has found the entry under `a`, an eviction does not
/// take that entry while the store holds another whose last access was
/// before the read.
pub proof fn law_read_protects(
    s: CacheModel,
    a: Seq<char>,
    b: Seq<char>,
    read_at: u64,
    next: CacheModel,
)
    requires
        s.is_live(a, read_at),
        a != b,
        s.entries.contains_key(b),
        s.entries[b].last_accessed < read_at,
        s.read(a, read_at).0.evicts_into(next),
    ensures
        next.entries.contains_key(a),
        next.entries[a] == s.entries[a].touched(read_at),
{
    let touched = s.read(a, read_at).0;
    assert(touched.entries.contains_key(b));
}

/// A store at capacity holds the entries under `a` and `b` and no
/// other. After a read that found `a`, later than the last access of
/// `b`, the write of a third key evicts `b` and keeps `a`.
pub proof fn law_read_renews(
    s: CacheModel,
    a: Seq<char>,
    b: Seq<char>,
    read_at: u64,
    next: CacheModel,
    c: Seq<char>,
    entry: EntryView,
)
    requires
        s.wf(),
        a != b,
        c != a,
        c != b,
        s.entries.dom() == set![a, b],
        s.entries.len() >= s.max_size,
        s.is_live(a, read_at),
        s.entries[b].last_accessed < read_at,
        s.read(a, read_at).0.sets_into(next, c, entry),
    ensures
        s.read(a, read_at).1 == Some(s.entries[a].value),
        next.entries.contains_key(a),
        !next.entries.contains_key(b),
        next.entries.contains_key(c),
        next.entries.dom() == set![a, c],
{
    let touched = s.read(a, read_at).0;
    law_read_keeps_wf(s, a, read_at);
    let mid = choose|mid: CacheModel| touched.evicts_into(mid) && next == mid.put(c, entry);
    law_read_protects(s, a, b, read_at, mid);
    assert(touched.entries.contains_key(a));
    let victim = choose|victim: Seq<char>| touched.is_oldest(victim) && mid == touched.evict(victim);
    assert(victim == b);
}

} // verus!
