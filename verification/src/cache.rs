//! The thread-safe cache: the sequential state machine of [`crate::state`]
//! behind one reader-writer lock.
//!
//! Every operation acquires the lock for the whole of its logical step, so
//! calls from different threads are strictly serialized and none observes a
//! partial effect of another. The lock's predicate is the concurrency
//! invariant: whichever thread acquires the lock receives a well-formed
//! state with the capacity and TTL fixed at construction, and must hand one
//! back. What each serialized step does to that state — what `get` returns,
//! what `put` evicts, when an entry expires — is the verified contract of
//! the corresponding `LruState` operation, which takes the clock reading as
//! an explicit argument. Between a caller's two calls other threads may run
//! any number of steps of their own, so the wrapper itself promises nothing
//! about values observed across calls.
//!
//! Timestamps are milliseconds of the monotonic clock since the cache was
//! built; keys and values are cloned or moved across the lock boundary, so
//! no caller ever holds a reference into the shared state.

use vstd::prelude::*;
use vstd::rwlock::{RwLock, RwLockPredicate};

use crate::clock::{duration_saturating_millis, instant_now, millis_since};
use crate::errors::CacheError;
use crate::state::LruState;

verus! {

/// The lock invariant: every state stored in the lock is well formed and
/// carries the capacity and TTL the cache was built with.
pub struct CachePred {
    pub capacity: usize,
    pub ttl: Option<u64>,
}

impl RwLockPredicate<LruState> for CachePred {
    open spec fn inv(self, s: LruState) -> bool {
        &&& s.wf()
        &&& s.capacity == self.capacity
        &&& s.ttl == self.ttl
    }
}

/// A bounded key/value cache with least-recently-used eviction and optional
/// time-to-live expiry, safe to share across threads: all state sits behind
/// one lock, acquired exclusively for the duration of each operation.
pub struct ThreadSafeLRUCache {
    lock: RwLock<LruState, CachePred>,
    start: std::time::Instant,
}

impl ThreadSafeLRUCache {
    /// The maximum number of live entries, fixed at construction.
    pub closed spec fn spec_capacity(self) -> usize {
        self.lock.pred().capacity
    }

    /// The configured time-to-live in milliseconds, fixed at construction;
    /// `None` means entries never expire by age.
    pub closed spec fn spec_ttl(self) -> Option<u64> {
        self.lock.pred().ttl
    }

    /// Builds a cache that holds at most `capacity` entries and never
    /// expires them by age. A capacity of zero is invalid configuration and
    /// is rejected here, at construction.
    pub fn new(capacity: usize) -> (r: Result<ThreadSafeLRUCache, CacheError>)
        ensures
            r is Ok <==> capacity >= 1,
            r matches Ok(c) ==> c.spec_capacity() == capacity && c.spec_ttl() is None,
            r matches Err(e) ==> e == CacheError::InvalidConfiguration,
    {
        match LruState::new(capacity) {
            Ok(st) => {
                let pred = Ghost(CachePred { capacity, ttl: None });
                Ok(ThreadSafeLRUCache { lock: RwLock::new(st, pred), start: instant_now() })
            },
            Err(e) => Err(e),
        }
    }

    /// Builds a cache that holds at most `capacity` entries, each treated
    /// as absent once more than `ttl` has passed since it was last touched.
    /// The duration is kept with millisecond resolution. A capacity of zero
    /// is rejected as for `new`.
    pub fn with_ttl(capacity: usize, ttl: std::time::Duration) -> (r: Result<
        ThreadSafeLRUCache,
        CacheError,
    >)
        ensures
            r is Ok <==> capacity >= 1,
            r matches Ok(c) ==> c.spec_capacity() == capacity && c.spec_ttl() is Some,
            r matches Err(e) ==> e == CacheError::InvalidConfiguration,
    {
        let ttl_millis = duration_saturating_millis(&ttl);
        match LruState::with_ttl(capacity, ttl_millis) {
            Ok(st) => {
                let pred = Ghost(CachePred { capacity, ttl: Some(ttl_millis) });
                Ok(ThreadSafeLRUCache { lock: RwLock::new(st, pred), start: instant_now() })
            },
            Err(e) => Err(e),
        }
    }

    /// Looks up `key`: the serialized step is `LruState::get_at` at the
    /// current clock reading. A hit refreshes the entry's recency and
    /// returns a copy of its value; an entry past its TTL is purged and
    /// reported absent; a read never evicts anything else.
    pub fn get(&self, key: &String) -> Option<String> {
        let now = millis_since(&self.start);
        let (mut st, handle) = self.lock.acquire_write();
        let r = st.get_at(key, now);
        handle.release_write(st);
        r
    }

    /// Inserts or updates `key`: the serialized step is `LruState::put_at`
    /// at the current clock reading. An existing key is updated in place
    /// with its recency refreshed; a fresh key evicts the least recently
    /// used entry first when the store is full, so the live count never
    /// exceeds the capacity.
    pub fn put(&self, key: String, value: String) {
        let now = millis_since(&self.start);
        let (mut st, handle) = self.lock.acquire_write();
        st.put_at(key, value, now);
        handle.release_write(st);
    }

    /// Deletes the entry for `key` if present and returns its value: the
    /// serialized step is `LruState::remove`. No other entry is touched.
    pub fn remove(&self, key: &String) -> Option<String> {
        let (mut st, handle) = self.lock.acquire_write();
        let r = st.remove(key);
        handle.release_write(st);
        r
    }

    /// Drops every entry; capacity and TTL configuration are unaffected.
    pub fn clear(&self) {
        let (mut st, handle) = self.lock.acquire_write();
        st.clear();
        handle.release_write(st);
    }

    /// The number of live entries at the instant of the call. Entries past
    /// their TTL still count until a `get` discovers them: expiry is lazy.
    /// The lock invariant bounds the answer by the capacity.
    pub fn len(&self) -> (n: usize)
        ensures
            n <= self.spec_capacity(),
    {
        let handle = self.lock.acquire_read();
        let n = handle.borrow().len();
        handle.release_read();
        n
    }

    /// Whether the cache held no live entries at the instant of the call.
    pub fn is_empty(&self) -> bool {
        self.len() == 0
    }
}

} // verus!
