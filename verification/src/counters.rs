//! The usage counters: a `DashMap` from counter name to count, reached
//! only through the operations below.

use crate::entry::counter_succ;
use dashmap::DashMap;
use vstd::prelude::*;

verus! {

/// What a counter table holds: each name that was counted at least
/// once, with its count.
pub uninterp spec fn stored_counts(stats: DashMap<String, u64>) -> Map<Seq<char>, u64>;

/// The contents of a table in which nothing was counted yet.
pub open spec fn no_counts() -> Map<Seq<char>, u64> {
    Map::empty()
}

/// Adds one to a count, which stays at `u64::MAX` once it is there.
pub fn advance(count: &mut u64)
    ensures
        *final(count) == counter_succ(*old(count)),
{
    *count = count.saturating_add(1);
}

/// Trusted: `DashMap::new`. Claims that the new table holds nothing.
#[verifier::external_body]
pub(crate) fn counts_new() -> (stats: DashMap<String, u64>)
    ensures
        stored_counts(stats) == no_counts(),
{
    DashMap::new()
}

/// Trusted: `DashMap::entry`, then `Entry::and_modify` and
/// `Entry::or_insert`. Claims that a count already held under `name` is
/// replaced by what [`advance`] makes of it, that otherwise `first` is
/// stored under `name`, and that all other counts stay; and that the
/// call does not panic.
#[verifier::external_body]
pub(crate) fn counts_record(stats: &mut DashMap<String, u64>, name: &str, first: u64)
    ensures
        stored_counts(*final(stats)) == stored_counts(*old(stats)).insert(
            name@,
            if stored_counts(*old(stats)).contains_key(name@) {
                counter_succ(stored_counts(*old(stats))[name@])
            } else {
                first
            },
        ),
    no_unwind
{
    stats.entry(name.to_string()).and_modify(|count| advance(count)).or_insert(first);
}

/// Trusted: `DashMap::iter`. Claims that one pass yields every stored
/// count exactly once: each item is a name of the table with its count,
/// no name comes twice, and every name of the table comes. Nothing is
/// claimed of the order.
#[verifier::external_body]
pub(crate) fn counts_scan(stats: &DashMap<String, u64>) -> (items: Vec<(String, u64)>)
    ensures
        forall|i: int|
            0 <= i < items.len() ==> stored_counts(*stats).contains_key((#[trigger] items[i]).0@)
                && stored_counts(*stats)[items[i].0@] == items[i].1,
        forall|i: int, j: int|
            0 <= i < j < items.len() ==> (#[trigger] items[i]).0@ != (#[trigger] items[j]).0@,
        forall|name: Seq<char>| #[trigger]
            stored_counts(*stats).contains_key(name) ==> exists|i: int|
                0 <= i < items.len() && (#[trigger] items[i]).0@ == name,
{
    stats.iter().map(|item| (item.key().clone(), *item.value())).collect()
}

} // verus!
