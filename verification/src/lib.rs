//! An in-process key/value cache with bounded capacity, per-entry
//! time-to-live, least-recently-used eviction and usage counters.

pub mod cache;
pub mod clock;
pub mod counters;
pub mod digest;
pub mod entry;
pub mod json;
pub mod laws;
pub mod model;
pub mod store;

pub use cache::MicroserviceCache;
pub use entry::CacheEntry;
pub use entry::EntryView;
pub use model::CacheModel;
