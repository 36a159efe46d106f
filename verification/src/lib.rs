//! A bounded, thread-safe key/value cache with least-recently-used (LRU)
//! eviction and optional time-to-live (TTL) expiry.
//!
//! The cache logic proper lives in [`state::LruState`], a sequential state
//! machine whose operations take the current time as an explicit argument and
//! carry full functional contracts. [`cache::ThreadSafeLRUCache`] wraps that
//! state behind a reader-writer lock whose invariant keeps the state well
//! formed and its configuration fixed, and reads the clock on each call.

pub mod cache;
mod clock;
pub mod errors;
pub mod laws;
pub mod state;

pub use cache::ThreadSafeLRUCache;
pub use errors::CacheError;
pub use state::LruState;
