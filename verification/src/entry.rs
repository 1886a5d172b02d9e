//! One cached value together with its expiry and recency bookkeeping.

use vstd::prelude::*;

verus! {

/// The successor of a counter that stops at `u64::MAX` instead of wrapping.
pub open spec fn counter_succ(n: u64) -> u64 {
    if n < u64::MAX {
        (n + 1) as u64
    } else {
        n
    }
}

/// The instant at which an entry created at `now` with the given
/// time-to-live stops being valid. An instant that would not fit in a
/// `u64` is held at `u64::MAX`, which no clock reading can exceed.
pub open spec fn expiry_of(now: u64, ttl_seconds: Option<u32>) -> Option<u64> {
    match ttl_seconds {
        Some(ttl) => Some(
            if now + ttl <= u64::MAX {
                (now + ttl) as u64
            } else {
                u64::MAX
            },
        ),
        None => None,
    }
}

/// An expiry has passed once the clock is strictly beyond it; where
/// there is none, it never passes.
pub open spec fn expiry_passed(expires_at: Option<u64>, now: u64) -> bool {
    match expires_at {
        Some(expires_at) => now > expires_at,
        None => false,
    }
}

/// Tells whether an expiry has passed at time `now`.
pub fn has_passed(expires_at: Option<u64>, now: u64) -> (passed: bool)
    ensures
        passed == expiry_passed(expires_at, now),
{
    match expires_at {
        Some(expires_at) => now > expires_at,
        None => false,
    }
}

/// The tags that a write gives its entry: those supplied, or none.
pub open spec fn tags_given(tags: Option<Vec<String>>) -> Seq<Seq<char>> {
    match tags {
        Some(tags) => tags.deep_view(),
        None => Seq::empty(),
    }
}

/// Mathematical value of a [`CacheEntry`].
pub struct EntryView {
    pub value: Seq<char>,
    pub created_at: u64,
    pub expires_at: Option<u64>,
    pub access_count: u64,
    pub last_accessed: u64,
    pub tags: Seq<Seq<char>>,
    pub original_key: Seq<char>,
}

impl EntryView {
    /// The entry that a write at time `now` creates.
    pub open spec fn fresh(
        value: Seq<char>,
        ttl_seconds: Option<u32>,
        tags: Seq<Seq<char>>,
        original_key: Seq<char>,
        now: u64,
    ) -> EntryView {
        EntryView {
            value,
            created_at: now,
            expires_at: expiry_of(now, ttl_seconds),
            access_count: 0,
            last_accessed: now,
            tags,
            original_key,
        }
    }

    /// An entry is expired once the clock is strictly past its expiry.
    pub open spec fn is_expired(self, now: u64) -> bool {
        expiry_passed(self.expires_at, now)
    }

    /// The entry after a successful read at time `now`.
    pub open spec fn touched(self, now: u64) -> EntryView {
        EntryView { access_count: counter_succ(self.access_count), last_accessed: now, ..self }
    }

    /// An expiry, where there is one, is never earlier than the creation.
    pub open spec fn wf(self) -> bool {
        match self.expires_at {
            Some(expires_at) => self.created_at <= expires_at,
            None => true,
        }
    }
}

/// A cached value with the metadata that expiry and eviction read.
#[derive(Clone, Debug)]
pub struct CacheEntry {
    pub value: String,
    pub created_at: u64,
    pub expires_at: Option<u64>,
    pub access_count: u64,
    pub last_accessed: u64,
    pub tags: Vec<String>,
    pub original_key: String,
}

impl View for CacheEntry {
    type V = EntryView;

    open spec fn view(&self) -> EntryView {
        EntryView {
            value: self.value@,
            created_at: self.created_at,
            expires_at: self.expires_at,
            access_count: self.access_count,
            last_accessed: self.last_accessed,
            tags: self.tags.deep_view(),
            original_key: self.original_key@,
        }
    }
}

impl CacheEntry {
    /// Creates the entry for a value written at time `now`.
    pub fn new(
        value: String,
        ttl_seconds: Option<u32>,
        tags: Vec<String>,
        original_key: String,
        now: u64,
    ) -> (entry: Self)
        ensures
            entry@ == EntryView::fresh(value@, ttl_seconds, tags.deep_view(), original_key@, now),
            entry@.wf(),
    {
        let expires_at = match ttl_seconds {
            Some(ttl) => Some(now.saturating_add(ttl as u64)),
            None => None,
        };
        CacheEntry {
            value,
            created_at: now,
            expires_at,
            access_count: 0,
            last_accessed: now,
            tags,
            original_key,
        }
    }

    /// Tells whether the entry has expired at time `now`.
    pub fn is_expired(&self, now: u64) -> (expired: bool)
        ensures
            expired == self@.is_expired(now),
    {
        has_passed(self.expires_at, now)
    }

    /// Records a successful read at time `now`.
    pub fn touch(&mut self, now: u64)
        ensures
            final(self)@ == old(self)@.touched(now),
    {
        self.access_count = self.access_count.saturating_add(1);
        self.last_accessed = now;
    }
}

} // verus!
