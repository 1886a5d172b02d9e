//! The entry store: a `DashMap` from internal key to entry, reached only
//! through the operations below.

use crate::entry::CacheEntry;
use crate::entry::EntryView;
use dashmap::DashMap;
use vstd::prelude::*;

verus! {

/// Trusted: the type `dashmap::DashMap`, of which nothing is known but
/// what the operations below claim.
#[verifier::external_type_specification]
#[verifier::external_body]
#[verifier::reject_recursive_types(K)]
#[verifier::reject_recursive_types(V)]
#[verifier::reject_recursive_types(S)]
pub struct ExDashMap<K, V, S>(DashMap<K, V, S>);

/// What an entry store holds: each internal key with the value of the
/// entry kept under it.
pub uninterp spec fn stored_entries(store: DashMap<String, CacheEntry>) -> Map<
    Seq<char>,
    EntryView,
>;

/// The contents of a store that holds nothing.
pub open spec fn empty_store() -> Map<Seq<char>, EntryView> {
    Map::empty()
}

/// What eviction and listing read of one stored entry.
pub struct EntrySummary {
    pub key: String,
    pub original_key: String,
    pub expires_at: Option<u64>,
    pub last_accessed: u64,
}

impl EntrySummary {
    /// The summary is that of the entry which `entries` holds under its key.
    pub open spec fn describes(self, entries: Map<Seq<char>, EntryView>) -> bool {
        &&& entries.contains_key(self.key@)
        &&& entries[self.key@].original_key == self.original_key@
        &&& entries[self.key@].expires_at == self.expires_at
        &&& entries[self.key@].last_accessed == self.last_accessed
    }
}

/// Trusted: `DashMap::new`. Claims that the new map holds nothing.
#[verifier::external_body]
pub(crate) fn store_new() -> (store: DashMap<String, CacheEntry>)
    ensures
        stored_entries(store) == empty_store(),
{
    DashMap::new()
}

/// Trusted: `DashMap::len`. Claims that the result is the number of
/// entries that the map holds.
#[verifier::external_body]
pub(crate) fn store_len(store: &DashMap<String, CacheEntry>) -> (n: usize)
    requires
        stored_entries(*store).dom().finite(),
    ensures
        n == stored_entries(*store).len(),
{
    store.len()
}

/// Trusted: `DashMap::insert`. Claims that afterwards the map holds
/// `entry` under `key`, in place of what it held there, and everything
/// else as before; and that the call does not panic.
#[verifier::external_body]
pub(crate) fn store_insert(store: &mut DashMap<String, CacheEntry>, key: String, entry: CacheEntry)
    ensures
        stored_entries(*final(store)) == stored_entries(*old(store)).insert(key@, entry@),
    no_unwind
{
    store.insert(key, entry);
}

/// Trusted: `DashMap::remove`. Claims that the entry under `key`, if
/// there was one, is handed back and is gone from the map, and that
/// everything else stays; and that the call does not panic.
#[verifier::external_body]
pub(crate) fn store_remove(store: &mut DashMap<String, CacheEntry>, key: &str) -> (removed: Option<
    CacheEntry,
>)
    ensures
        stored_entries(*final(store)) == stored_entries(*old(store)).remove(key@),
        match removed {
            Some(entry) => stored_entries(*old(store)).contains_key(key@) && entry@
                == stored_entries(*old(store))[key@],
            None => !stored_entries(*old(store)).contains_key(key@),
        },
    no_unwind
{
    store.remove(key).map(|pair| pair.1)
}

/// Trusted: `DashMap::clear`. Claims that afterwards the map holds
/// nothing, and that the call does not panic.
#[verifier::external_body]
pub(crate) fn store_clear(store: &mut DashMap<String, CacheEntry>)
    ensures
        stored_entries(*final(store)) == empty_store(),
    no_unwind
{
    store.clear();
}

/// Trusted: `DashMap::iter`. Claims that one pass yields every stored
/// entry exactly once: each item describes an entry of the map, no key
/// comes twice, and every key of the map comes. Nothing is claimed of
/// the order.
#[verifier::external_body]
pub(crate) fn store_scan(store: &DashMap<String, CacheEntry>) -> (items: Vec<EntrySummary>)
    ensures
        forall|i: int|
            0 <= i < items.len() ==> (#[trigger] items[i]).describes(stored_entries(*store)),
        forall|i: int, j: int|
            0 <= i < j < items.len() ==> (#[trigger] items[i]).key@ != (#[trigger] items[j]).key@,
        forall|k: Seq<char>| #[trigger]
            stored_entries(*store).contains_key(k) ==> exists|i: int|
                0 <= i < items.len() && (#[trigger] items[i]).key@ == k,
{
    store.iter().map(
        |item|
            EntrySummary {
                key: item.key().clone(),
                original_key: item.value().original_key.clone(),
                expires_at: item.value().expires_at,
                last_accessed: item.value().last_accessed,
            },
    ).collect()
}

} // verus!
