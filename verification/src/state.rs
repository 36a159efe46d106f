//! The cache state machine: a bounded store of key/value entries ordered by
//! recency, with optional time-to-live expiry.
//!
//! Entries live in a vector kept sorted by recency of use: the entry at index
//! 0 is the least recently used and the entry at the back is the most
//! recently used. Every successful read or write of a key moves its entry to
//! the back, so an entry's index is its recency rank and eviction simply
//! removes the front entry. Keeping the order explicit makes the eviction
//! victim deterministic: among entries touched at the same clock reading the
//! least recently moved one (insertion order) is evicted first.
//!
//! Time enters only as an argument: every operation that reads the clock in
//! the concurrent wrapper takes the reading here as a plain millisecond
//! count, so the whole state machine is verified for every clock value.

use vstd::prelude::*;

use crate::errors::CacheError;

verus! {

/// One live cache entry: an owned copy of the key, the stored value, and the
/// moment (in milliseconds on the owner's clock) the entry was last touched.
pub struct Entry {
    pub key: String,
    pub value: String,
    pub stamp: u64,
}

/// No two entries share a key.
pub open spec fn keys_distinct(s: Seq<Entry>) -> bool {
    forall|i: int, j: int|
        0 <= i < s.len() && 0 <= j < s.len() && i != j ==> s[i].key@ != s[j].key@
}

/// The timestamp an entry carries after being touched at `now`: the clock
/// reading, unless the clock appears to have moved backwards, in which case
/// the old stamp is kept. An entry's stamp therefore never decreases.
pub open spec fn refreshed(stamp: u64, now: u64) -> u64 {
    if now > stamp {
        now
    } else {
        stamp
    }
}

/// The cache state: the entry store (ordered least to most recently used),
/// the fixed capacity, and the optional time-to-live in milliseconds.
pub struct LruState {
    pub entries: Vec<Entry>,
    pub capacity: usize,
    pub ttl: Option<u64>,
}

impl LruState {
    /// Well-formedness: a positive capacity bounds the number of live
    /// entries, and keys are unique. Every operation preserves this.
    pub open spec fn wf(self) -> bool {
        &&& self.capacity >= 1
        &&& self.entries@.len() <= self.capacity
        &&& keys_distinct(self.entries@)
    }

    /// The number of live entries.
    pub open spec fn spec_len(self) -> nat {
        self.entries@.len()
    }

    /// Whether some live entry has key `k`.
    pub open spec fn has_key(self, k: Seq<char>) -> bool {
        exists|i: int| 0 <= i < self.entries@.len() && self.entries@[i].key@ == k
    }

    /// The recency rank of the entry with key `k`: its index in the store.
    /// Rank 0 is the least recently used entry; rank `spec_len() - 1` the
    /// most recently used. Meaningful only when `has_key(k)` holds; unique
    /// because keys are distinct.
    pub open spec fn rank_of(self, k: Seq<char>) -> int {
        choose|i: int| 0 <= i < self.entries@.len() && self.entries@[i].key@ == k
    }

    /// The entry with key `k` (meaningful only when `has_key(k)` holds).
    pub open spec fn entry_of(self, k: Seq<char>) -> Entry {
        self.entries@[self.rank_of(k)]
    }

    /// The value stored under `k`.
    pub open spec fn value_of(self, k: Seq<char>) -> Seq<char> {
        self.entry_of(k).value@
    }

    /// The moment the entry with key `k` was last touched.
    pub open spec fn stamp_of(self, k: Seq<char>) -> u64 {
        self.entry_of(k).stamp
    }

    /// Whether the entry with key `k` is expired at time `now`: a TTL is
    /// configured and strictly more than that many milliseconds have passed
    /// since the entry was last touched. Without a TTL nothing expires; a
    /// clock reading before the entry's own stamp never expires it.
    pub open spec fn is_expired_at(self, k: Seq<char>, now: u64) -> bool {
        match self.ttl {
            Some(d) => now >= self.stamp_of(k) && now - self.stamp_of(k) > d,
            None => false,
        }
    }
}

/// When a key is present, its rank is a valid index and holds the key.
pub proof fn lemma_rank_valid(s: LruState, k: Seq<char>)
    requires
        s.has_key(k),
    ensures
        0 <= s.rank_of(k) < s.entries@.len(),
        s.entries@[s.rank_of(k)].key@ == k,
{
}

/// The rank of a key is the one index that holds it: with distinct keys the
/// chosen witness of `rank_of` agrees with any index known to hold the key.
pub proof fn lemma_rank_unique(s: LruState, k: Seq<char>, i: int)
    requires
        keys_distinct(s.entries@),
        0 <= i < s.entries@.len(),
        s.entries@[i].key@ == k,
    ensures
        s.has_key(k),
        s.rank_of(k) == i,
{
    assert(s.has_key(k));
    let j = s.rank_of(k);
    assert(0 <= j < s.entries@.len() && s.entries@[j].key@ == k);
    if i != j {
        assert(s.entries@[i].key@ != s.entries@[j].key@);
    }
}

/// Element-level reading of `s.remove(i)`: its length, how its elements map
/// back to those of `s`, that keys stay distinct, and that the removed key
/// is gone.
pub(crate) proof fn lemma_remove_facts(s: Seq<Entry>, i: int)
    requires
        keys_distinct(s),
        0 <= i < s.len(),
    ensures
        s.remove(i).len() == s.len() - 1,
        forall|j: int| 0 <= j < i ==> #[trigger] s.remove(i)[j] == s[j],
        forall|j: int| i <= j < s.len() - 1 ==> #[trigger] s.remove(i)[j] == s[j + 1],
        keys_distinct(s.remove(i)),
        forall|j: int| 0 <= j < s.len() - 1 ==> #[trigger] s.remove(i)[j].key@ != s[i].key@,
{
    s.remove_ensures(i);
    let t = s.remove(i);
    assert forall|p: int, q: int|
        0 <= p < t.len() && 0 <= q < t.len() && p != q implies t[p].key@ != t[q].key@ by {
        let p0 = if p < i { p } else { p + 1 };
        let q0 = if q < i { q } else { q + 1 };
        assert(t[p] == s[p0]);
        assert(t[q] == s[q0]);
    }
    assert forall|j: int| 0 <= j < s.len() - 1 implies t[j].key@ != s[i].key@ by {
        let j0 = if j < i { j } else { j + 1 };
        assert(t[j] == s[j0]);
    }
}

/// Key-level reading of a deletion: when `post` is `pre` with the entry at
/// index `i` removed, that entry's key is gone, every other key survives
/// with its entry unchanged, and no key appears from nowhere.
pub proof fn lemma_remove_transition(pre: LruState, post: LruState, i: int)
    requires
        pre.wf(),
        0 <= i < pre.entries@.len(),
        post.entries@ == pre.entries@.remove(i),
        post.capacity == pre.capacity,
        post.ttl == pre.ttl,
    ensures
        post.wf(),
        post.spec_len() == pre.spec_len() - 1,
        !post.has_key(pre.entries@[i].key@),
        forall|k: Seq<char>| #[trigger] post.has_key(k) ==> pre.has_key(k),
        forall|k: Seq<char>|
            #[trigger] pre.has_key(k) && k != pre.entries@[i].key@ ==> post.has_key(k)
                && post.entry_of(k) == pre.entry_of(k),
{
    let s = pre.entries@;
    let t = post.entries@;
    lemma_remove_facts(s, i);
    assert forall|k: Seq<char>| post.has_key(k) implies pre.has_key(k) by {
        lemma_rank_valid(post, k);
        let j2 = post.rank_of(k);
        let j0 = if j2 < i { j2 } else { j2 + 1 };
        assert(t[j2] == s[j0]);
        assert(s[j0].key@ == k);
    }
    assert forall|k: Seq<char>|
        pre.has_key(k) && k != s[i].key@ implies post.has_key(k)
            && post.entry_of(k) == pre.entry_of(k) by {
        lemma_rank_valid(pre, k);
        let j = pre.rank_of(k);
        assert(j != i);
        let j2 = if j < i { j } else { j - 1 };
        assert(t[j2] == s[j]);
        assert(post.has_key(k));
        lemma_rank_unique(post, k, j2);
    }
}

/// Key-level reading of a touch: when `post` is `pre` with the entry at
/// index `i` replaced by `e` (same key) at the most recently used end, the
/// key set is unchanged, the touched key now has the highest rank, and every
/// other entry is untouched and ranks below it.
pub proof fn lemma_touch_transition(pre: LruState, post: LruState, i: int, e: Entry)
    requires
        pre.wf(),
        0 <= i < pre.entries@.len(),
        e.key@ == pre.entries@[i].key@,
        post.entries@ == pre.entries@.remove(i).push(e),
        post.capacity == pre.capacity,
        post.ttl == pre.ttl,
    ensures
        post.wf(),
        post.spec_len() == pre.spec_len(),
        post.has_key(e.key@),
        post.rank_of(e.key@) == post.spec_len() - 1,
        post.entry_of(e.key@) == e,
        forall|k: Seq<char>| #[trigger] pre.has_key(k) ==> post.has_key(k),
        forall|k: Seq<char>| #[trigger] post.has_key(k) ==> pre.has_key(k),
        forall|k: Seq<char>|
            #[trigger] pre.has_key(k) && k != e.key@ ==> post.entry_of(k) == pre.entry_of(k)
                && post.rank_of(k) < post.rank_of(e.key@),
{
    let s = pre.entries@;
    let t = post.entries@;
    lemma_remove_facts(s, i);
    let last = t.len() - 1;
    assert(t[last] == e);
    assert forall|p: int, q: int|
        0 <= p < t.len() && 0 <= q < t.len() && p != q implies t[p].key@ != t[q].key@ by {
        if p < last && q < last {
            assert(t[p] == s.remove(i)[p]);
            assert(t[q] == s.remove(i)[q]);
        } else if p == last {
            assert(t[q] == s.remove(i)[q]);
            assert(s.remove(i)[q].key@ != s[i].key@);
        } else {
            assert(t[p] == s.remove(i)[p]);
            assert(s.remove(i)[p].key@ != s[i].key@);
        }
    }
    assert(post.has_key(e.key@));
    lemma_rank_unique(post, e.key@, last);
    assert forall|k: Seq<char>| pre.has_key(k) implies post.has_key(k) by {
        lemma_rank_valid(pre, k);
        let j = pre.rank_of(k);
        if j == i {
            assert(t[last].key@ == k);
        } else {
            let j2 = if j < i { j } else { j - 1 };
            assert(t[j2] == s[j]);
        }
    }
    assert forall|k: Seq<char>| post.has_key(k) implies pre.has_key(k) by {
        lemma_rank_valid(post, k);
        let j2 = post.rank_of(k);
        if j2 == last {
            assert(s[i].key@ == k);
        } else {
            let j0 = if j2 < i { j2 } else { j2 + 1 };
            assert(t[j2] == s[j0]);
            assert(s[j0].key@ == k);
        }
    }
    assert forall|k: Seq<char>|
        pre.has_key(k) && k != e.key@ implies post.entry_of(k) == pre.entry_of(k)
            && post.rank_of(k) < post.rank_of(e.key@) by {
        lemma_rank_valid(pre, k);
        let j = pre.rank_of(k);
        assert(j != i);
        let j2 = if j < i { j } else { j - 1 };
        assert(t[j2] == s[j]);
        assert(post.has_key(k));
        lemma_rank_unique(post, k, j2);
    }
}

/// Key-level reading of an insertion: when `post` is `pre` with a fresh
/// entry `e` pushed at the most recently used end, the new key is present at
/// the highest rank and every old entry is untouched.
pub proof fn lemma_insert_transition(pre: LruState, post: LruState, e: Entry)
    requires
        pre.wf(),
        !pre.has_key(e.key@),
        pre.spec_len() < pre.capacity,
        post.entries@ == pre.entries@.push(e),
        post.capacity == pre.capacity,
        post.ttl == pre.ttl,
    ensures
        post.wf(),
        post.spec_len() == pre.spec_len() + 1,
        post.has_key(e.key@),
        post.rank_of(e.key@) == post.spec_len() - 1,
        post.entry_of(e.key@) == e,
        forall|k: Seq<char>| #[trigger] pre.has_key(k) ==> post.has_key(k),
        forall|k: Seq<char>| #[trigger] post.has_key(k) && k != e.key@ ==> pre.has_key(k),
        forall|k: Seq<char>|
            #[trigger] pre.has_key(k) ==> post.entry_of(k) == pre.entry_of(k)
                && post.rank_of(k) < post.rank_of(e.key@),
{
    let s = pre.entries@;
    let t = post.entries@;
    let last = t.len() - 1;
    assert(t[last] == e);
    assert forall|j: int| 0 <= j < last implies t[j] == s[j] by {}
    assert forall|p: int, q: int|
        0 <= p < t.len() && 0 <= q < t.len() && p != q implies t[p].key@ != t[q].key@ by {
        if p == last {
            assert(t[q] == s[q]);
            if s[q].key@ == e.key@ {
                assert(pre.has_key(e.key@));
            }
        } else if q == last {
            assert(t[p] == s[p]);
            if s[p].key@ == e.key@ {
                assert(pre.has_key(e.key@));
            }
        } else {
            assert(t[p] == s[p]);
            assert(t[q] == s[q]);
        }
    }
    assert(post.has_key(e.key@));
    lemma_rank_unique(post, e.key@, last);
    assert forall|k: Seq<char>| post.has_key(k) && k != e.key@ implies pre.has_key(k) by {
        lemma_rank_valid(post, k);
        let j2 = post.rank_of(k);
        assert(j2 != last);
        assert(t[j2] == s[j2]);
    }
    assert forall|k: Seq<char>|
        pre.has_key(k) implies post.has_key(k) && post.entry_of(k) == pre.entry_of(k)
            && post.rank_of(k) < post.rank_of(e.key@) by {
        lemma_rank_valid(pre, k);
        let j = pre.rank_of(k);
        assert(t[j] == s[j]);
        assert(post.has_key(k));
        lemma_rank_unique(post, k, j);
    }
}

impl LruState {
    /// Builds an empty cache without expiry. A capacity of zero is invalid
    /// configuration and is rejected here, at construction.
    pub fn new(capacity: usize) -> (r: Result<LruState, CacheError>)
        ensures
            r is Ok <==> capacity >= 1,
            r matches Ok(s) ==> {
                &&& s.wf()
                &&& s.capacity == capacity
                &&& s.ttl is None
                &&& s.spec_len() == 0
            },
            r matches Err(e) ==> e == CacheError::InvalidConfiguration,
    {
        if capacity == 0 {
            Err(CacheError::InvalidConfiguration)
        } else {
            Ok(LruState { entries: Vec::new(), capacity, ttl: None })
        }
    }

    /// Builds an empty cache whose entries expire `ttl_millis` milliseconds
    /// after they were last touched. A capacity of zero is rejected as for
    /// `new`.
    pub fn with_ttl(capacity: usize, ttl_millis: u64) -> (r: Result<LruState, CacheError>)
        ensures
            r is Ok <==> capacity >= 1,
            r matches Ok(s) ==> {
                &&& s.wf()
                &&& s.capacity == capacity
                &&& s.ttl == Some(ttl_millis)
                &&& s.spec_len() == 0
            },
            r matches Err(e) ==> e == CacheError::InvalidConfiguration,
    {
        if capacity == 0 {
            Err(CacheError::InvalidConfiguration)
        } else {
            Ok(LruState { entries: Vec::new(), capacity, ttl: Some(ttl_millis) })
        }
    }

    /// The number of live entries. Entries past their TTL still count until
    /// a `get_at` discovers and purges them: expiry is lazy.
    pub fn len(&self) -> (n: usize)
        ensures
            n == self.spec_len(),
    {
        self.entries.len()
    }

    /// Whether the cache holds no live entries.
    pub fn is_empty(&self) -> (r: bool)
        ensures
            r == (self.spec_len() == 0),
    {
        self.entries.len() == 0
    }

    /// Drops every entry unconditionally; capacity and TTL are unaffected.
    pub fn clear(&mut self)
        ensures
            final(self).entries@ == Seq::<Entry>::empty(),
            final(self).spec_len() == 0,
            final(self).capacity == old(self).capacity,
            final(self).ttl == old(self).ttl,
            old(self).wf() ==> final(self).wf(),
    {
        self.entries.clear();
    }
}

impl LruState {
    /// Looks up `key` at time `now`. A missing key returns `None` and
    /// changes nothing. A present entry past its TTL is purged as a side
    /// effect and `None` is returned: expiry is lazy, discovered on access.
    /// Otherwise the value is cloned out, the entry's stamp is refreshed
    /// (never backwards) and the entry becomes the most recently used: a
    /// successful read counts as a use. No eviction happens on a read.
    pub fn get_at(&mut self, key: &String, now: u64) -> (r: Option<String>)
        requires
            old(self).wf(),
        ensures
            final(self).wf(),
            final(self).capacity == old(self).capacity,
            final(self).ttl == old(self).ttl,
            !old(self).has_key(key@) ==> r is None
                && final(self).entries@ == old(self).entries@,
            old(self).has_key(key@) && old(self).is_expired_at(key@, now) ==> {
                &&& r is None
                &&& final(self).entries@ == old(self).entries@.remove(old(self).rank_of(key@))
                &&& final(self).spec_len() == old(self).spec_len() - 1
                &&& !final(self).has_key(key@)
                &&& forall|k2: Seq<char>|
                    #[trigger] old(self).has_key(k2) && k2 != key@ ==> final(self).has_key(k2)
                        && final(self).entry_of(k2) == old(self).entry_of(k2)
                &&& forall|k2: Seq<char>| #[trigger] final(self).has_key(k2) ==> old(self).has_key(k2)
            },
            old(self).has_key(key@) && !old(self).is_expired_at(key@, now) ==> {
                &&& r == Some(old(self).entry_of(key@).value)
                &&& final(self).entries@ == old(self).entries@.remove(
                    old(self).rank_of(key@),
                ).push(final(self).entry_of(key@))
                &&& final(self).spec_len() == old(self).spec_len()
                &&& final(self).has_key(key@)
                &&& final(self).entry_of(key@).key == old(self).entry_of(key@).key
                &&& final(self).value_of(key@) == old(self).value_of(key@)
                &&& final(self).stamp_of(key@) == refreshed(old(self).stamp_of(key@), now)
                &&& final(self).stamp_of(key@) >= old(self).stamp_of(key@)
                &&& final(self).rank_of(key@) == final(self).spec_len() - 1
                &&& forall|k2: Seq<char>| #[trigger] old(self).has_key(k2) ==> final(self).has_key(k2)
                &&& forall|k2: Seq<char>| #[trigger] final(self).has_key(k2) ==> old(self).has_key(k2)
                &&& forall|k2: Seq<char>|
                    #[trigger] old(self).has_key(k2) && k2 != key@ ==> final(self).entry_of(k2)
                        == old(self).entry_of(k2)
                        && final(self).rank_of(k2) < final(self).rank_of(key@)
            },
    {
        match find_index(&self.entries, key) {
            None => None,
            Some(i) => {
                proof {
                    lemma_rank_unique(*self, key@, i as int);
                }
                let stamp = self.entries[i].stamp;
                let mut expired = false;
                match self.ttl {
                    Some(d) => {
                        if now >= stamp && now - stamp > d {
                            expired = true;
                        }
                    },
                    None => {},
                }
                if expired {
                    let _purged = self.entries.remove(i);
                    proof {
                        lemma_remove_transition(*old(self), *self, i as int);
                    }
                    None
                } else {
                    let mut e = self.entries.remove(i);
                    let value = e.value.clone();
                    if now > e.stamp {
                        e.stamp = now;
                    }
                    self.entries.push(e);
                    proof {
                        lemma_touch_transition(
                            *old(self),
                            *self,
                            i as int,
                            self.entries@.last(),
                        );
                    }
                    Some(value)
                }
            },
        }
    }

    /// Inserts or updates `key` at time `now`. An existing entry has its
    /// value replaced and its recency refreshed in place: the live count
    /// never changes and nothing is evicted. A fresh key is inserted with
    /// the current time as its stamp; when the store is already full,
    /// exactly the least recently used entry is evicted first, so the store
    /// never transiently exceeds its capacity.
    pub fn put_at(&mut self, key: String, value: String, now: u64)
        requires
            old(self).wf(),
        ensures
            final(self).wf(),
            final(self).capacity == old(self).capacity,
            final(self).ttl == old(self).ttl,
            final(self).spec_len() <= final(self).capacity,
            final(self).has_key(key@),
            final(self).value_of(key@) == value@,
            final(self).rank_of(key@) == final(self).spec_len() - 1,
            final(self).entry_of(key@).value == value,
            old(self).has_key(key@) ==> {
                &&& final(self).entries@ == old(self).entries@.remove(
                    old(self).rank_of(key@),
                ).push(final(self).entry_of(key@))
                &&& final(self).spec_len() == old(self).spec_len()
                &&& final(self).entry_of(key@).key == old(self).entry_of(key@).key
                &&& final(self).stamp_of(key@) == refreshed(old(self).stamp_of(key@), now)
                &&& final(self).stamp_of(key@) >= old(self).stamp_of(key@)
                &&& forall|k2: Seq<char>| #[trigger] old(self).has_key(k2) ==> final(self).has_key(k2)
                &&& forall|k2: Seq<char>| #[trigger] final(self).has_key(k2) ==> old(self).has_key(k2)
                &&& forall|k2: Seq<char>|
                    #[trigger] old(self).has_key(k2) && k2 != key@ ==> final(self).entry_of(k2)
                        == old(self).entry_of(k2)
                        && final(self).rank_of(k2) < final(self).rank_of(key@)
            },
            !old(self).has_key(key@) && old(self).spec_len() < old(self).capacity ==> {
                &&& final(self).entries@ == old(self).entries@.push(final(self).entry_of(key@))
                &&& final(self).spec_len() == old(self).spec_len() + 1
                &&& final(self).entry_of(key@).key == key
                &&& final(self).stamp_of(key@) == now
                &&& forall|k2: Seq<char>|
                    #[trigger] old(self).has_key(k2) ==> final(self).has_key(k2)
                        && final(self).entry_of(k2) == old(self).entry_of(k2)
                        && final(self).rank_of(k2) < final(self).rank_of(key@)
                &&& forall|k2: Seq<char>|
                    #[trigger] final(self).has_key(k2) && k2 != key@ ==> old(self).has_key(k2)
            },
            !old(self).has_key(key@) && old(self).spec_len() >= old(self).capacity ==> {
                &&& final(self).entries@ == old(self).entries@.remove(0).push(
                    final(self).entry_of(key@),
                )
                &&& final(self).spec_len() == old(self).spec_len()
                &&& final(self).entry_of(key@).key == key
                &&& final(self).stamp_of(key@) == now
                &&& !final(self).has_key(old(self).entries@[0].key@)
                &&& forall|k2: Seq<char>|
                    #[trigger] old(self).has_key(k2) && k2 != old(self).entries@[0].key@
                        ==> final(self).has_key(k2)
                        && final(self).entry_of(k2) == old(self).entry_of(k2)
                        && final(self).rank_of(k2) < final(self).rank_of(key@)
                &&& forall|k2: Seq<char>|
                    #[trigger] final(self).has_key(k2) && k2 != key@ ==> old(self).has_key(k2)
            },
    {
        match find_index(&self.entries, &key) {
            Some(i) => {
                proof {
                    lemma_rank_unique(*self, key@, i as int);
                }
                let mut e = self.entries.remove(i);
                e.value = value;
                if now > e.stamp {
                    e.stamp = now;
                }
                self.entries.push(e);
                proof {
                    lemma_touch_transition(*old(self), *self, i as int, self.entries@.last());
                }
            },
            None => {
                if self.entries.len() >= self.capacity {
                    self.evict_lru();
                }
                let ghost mid = *self;
                self.entries.push(Entry { key, value, stamp: now });
                proof {
                    lemma_insert_transition(mid, *self, self.entries@.last());
                }
            },
        }
    }

    /// Deletes the least recently used entry: in recency order that is the
    /// front of the store, rank 0. A cache without entries is left as it
    /// is. `put_at` calls this exactly once when a fresh key arrives at a
    /// full store.
    pub fn evict_lru(&mut self)
        requires
            old(self).wf(),
        ensures
            final(self).wf(),
            final(self).capacity == old(self).capacity,
            final(self).ttl == old(self).ttl,
            old(self).spec_len() == 0 ==> final(self).entries@ == old(self).entries@,
            old(self).spec_len() >= 1 ==> {
                &&& final(self).entries@ == old(self).entries@.remove(0)
                &&& final(self).spec_len() == old(self).spec_len() - 1
                &&& !final(self).has_key(old(self).entries@[0].key@)
                &&& forall|k2: Seq<char>|
                    #[trigger] old(self).has_key(k2) && k2 != old(self).entries@[0].key@
                        ==> final(self).has_key(k2)
                        && final(self).entry_of(k2) == old(self).entry_of(k2)
                &&& forall|k2: Seq<char>| #[trigger] final(self).has_key(k2) ==> old(self).has_key(k2)
            },
    {
        if self.entries.len() > 0 {
            let _victim = self.entries.remove(0);
            proof {
                lemma_remove_transition(*old(self), *self, 0);
            }
        }
    }

    /// Deletes the entry for `key` if present and hands its value back,
    /// otherwise returns `None`. No other entry is touched: neither
    /// eviction nor expiry happens here.
    pub fn remove(&mut self, key: &String) -> (r: Option<String>)
        requires
            old(self).wf(),
        ensures
            final(self).wf(),
            final(self).capacity == old(self).capacity,
            final(self).ttl == old(self).ttl,
            !old(self).has_key(key@) ==> r is None
                && final(self).entries@ == old(self).entries@,
            old(self).has_key(key@) ==> {
                &&& r == Some(old(self).entry_of(key@).value)
                &&& final(self).entries@ == old(self).entries@.remove(old(self).rank_of(key@))
                &&& final(self).spec_len() == old(self).spec_len() - 1
                &&& !final(self).has_key(key@)
                &&& forall|k2: Seq<char>|
                    #[trigger] old(self).has_key(k2) && k2 != key@ ==> final(self).has_key(k2)
                        && final(self).entry_of(k2) == old(self).entry_of(k2)
                &&& forall|k2: Seq<char>| #[trigger] final(self).has_key(k2) ==> old(self).has_key(k2)
            },
    {
        match find_index(&self.entries, key) {
            None => None,
            Some(i) => {
                proof {
                    lemma_rank_unique(*self, key@, i as int);
                }
                let e = self.entries.remove(i);
                proof {
                    lemma_remove_transition(*old(self), *self, i as int);
                }
                Some(e.value)
            },
        }
    }
}

/// Finds the index of the entry holding `key`, scanning from the least
/// recently used end.
fn find_index(entries: &Vec<Entry>, key: &String) -> (r: Option<usize>)
    ensures
        match r {
            Some(i) => {
                &&& i < entries@.len()
                &&& entries@[i as int].key@ == key@
            },
            None => forall|j: int| 0 <= j < entries@.len() ==> entries@[j].key@ != key@,
        },
{
    let mut i: usize = 0;
    while i < entries.len()
        invariant
            i <= entries@.len(),
            forall|j: int| 0 <= j < i ==> entries@[j].key@ != key@,
        decreases entries@.len() - i,
    {
        if entries[i].key == *key {
            return Some(i);
        }
        i = i + 1;
    }
    None
}

} // verus!
