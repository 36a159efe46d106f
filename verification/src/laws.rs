//! The behavioural laws of the cache, stated and proved once and for all.
//!
//! Each law is a public proof function. Its premises are facts that the
//! operations' own contracts establish (well-formedness, or the transition
//! an operation's `ensures` describes), so a caller of the operations can
//! chain them; its conclusions read off what the law promises. Recency is
//! positional throughout: an entry's rank is its index in the store, rank 0
//! is the least recently used entry and the highest rank the most recently
//! used one.

use vstd::prelude::*;

use crate::state::{
    lemma_rank_unique,
    lemma_rank_valid,
    lemma_remove_facts,
    LruState,
};

verus! {

/// Law (capacity invariant): a well-formed cache never holds more live
/// entries than its capacity. Every operation requires and re-ensures
/// well-formedness, so along any sequence of `put_at` (or other) calls the
/// bound holds after each call.
pub proof fn lemma_capacity_bound(s: LruState)
    requires
        s.wf(),
    ensures
        s.spec_len() <= s.capacity,
{
}

/// Law (LRU correctness): when a fresh key `k` arrives at a full cache, the
/// eviction victim is exactly the least recently used entry — the one with
/// the minimal recency rank, at the front of the store — and no other entry
/// is removed or altered. The premises are what `put_at` ensures when it
/// inserts a fresh key into a full store.
pub proof fn lemma_put_full_evicts_lru(pre: LruState, post: LruState, k: Seq<char>)
    requires
        pre.wf(),
        post.wf(),
        !pre.has_key(k),
        pre.spec_len() == pre.capacity,
        post.capacity == pre.capacity,
        post.ttl == pre.ttl,
        post.has_key(k),
        post.entries@ == pre.entries@.remove(0).push(post.entry_of(k)),
        post.entry_of(k).key@ == k,
    ensures
        forall|k2: Seq<char>|
            #[trigger] pre.has_key(k2) ==> pre.rank_of(pre.entries@[0].key@) <= pre.rank_of(k2),
        !post.has_key(pre.entries@[0].key@),
        forall|k2: Seq<char>|
            #[trigger] pre.has_key(k2) && k2 != pre.entries@[0].key@ ==> post.has_key(k2)
                && post.value_of(k2) == pre.value_of(k2)
                && post.stamp_of(k2) == pre.stamp_of(k2),
        forall|k2: Seq<char>| #[trigger] post.has_key(k2) && k2 != k ==> pre.has_key(k2),
        post.spec_len() == pre.spec_len(),
{
    let s = pre.entries@;
    let t = post.entries@;
    let e = post.entry_of(k);
    let vk = s[0].key@;
    lemma_remove_facts(s, 0);
    let last = t.len() - 1;
    assert(t[last] == e);
    assert(pre.has_key(vk));
    lemma_rank_unique(pre, vk, 0);
    assert forall|k2: Seq<char>|
        pre.has_key(k2) implies pre.rank_of(vk) <= pre.rank_of(k2) by {
        lemma_rank_valid(pre, k2);
    }
    assert forall|j: int| 0 <= j < t.len() implies t[j].key@ != vk by {
        if j < last {
            assert(t[j] == s.remove(0)[j]);
        }
    }
    assert forall|k2: Seq<char>|
        pre.has_key(k2) && k2 != vk implies post.has_key(k2) && post.value_of(k2) == pre.value_of(
            k2,
        ) && post.stamp_of(k2) == pre.stamp_of(k2) by {
        lemma_rank_valid(pre, k2);
        let j = pre.rank_of(k2);
        assert(j != 0);
        assert(t[j - 1] == s.remove(0)[j - 1]);
        assert(s.remove(0)[j - 1] == s[j]);
        assert(post.has_key(k2));
        lemma_rank_unique(post, k2, j - 1);
    }
    assert forall|k2: Seq<char>| post.has_key(k2) && k2 != k implies pre.has_key(k2) by {
        lemma_rank_valid(post, k2);
        let j2 = post.rank_of(k2);
        assert(j2 != last);
        assert(t[j2] == s.remove(0)[j2]);
        assert(s.remove(0)[j2] == s[j2 + 1]);
    }
}

/// Law (read freshness): an entry at the highest recency rank — where a
/// successful `get_at` has just moved it — survives the next eviction.
/// When a fresh key then arrives at the full store, the victim is the rank
/// 0 entry, so the freshly read entry keeps its value. The premises about
/// the transition are what `put_at` ensures for a fresh key at capacity.
pub proof fn lemma_fresh_read_survives_eviction(
    pre: LruState,
    post: LruState,
    k: Seq<char>,
    k_new: Seq<char>,
)
    requires
        pre.wf(),
        post.wf(),
        pre.has_key(k),
        pre.rank_of(k) == pre.spec_len() - 1,
        pre.spec_len() >= 2,
        !pre.has_key(k_new),
        pre.spec_len() == pre.capacity,
        post.capacity == pre.capacity,
        post.ttl == pre.ttl,
        post.has_key(k_new),
        post.entries@ == pre.entries@.remove(0).push(post.entry_of(k_new)),
        post.entry_of(k_new).key@ == k_new,
    ensures
        post.has_key(k),
        post.value_of(k) == pre.value_of(k),
{
    lemma_rank_valid(pre, k);
    if k == pre.entries@[0].key@ {
        lemma_rank_unique(pre, k, 0);
    }
    lemma_put_full_evicts_lru(pre, post, k_new);
}

/// Law (TTL expiry): with a TTL of `d` milliseconds, an entry whose last
/// touch carries stamp `t` is expired at every clock reading strictly later
/// than `t + d`; the expired-entry contract of `get_at` then returns `None`
/// and purges the entry, shrinking the live count by one. At `t + d`
/// exactly the entry is still alive: expiry requires strictly more than the
/// TTL to have passed, as `lemma_ttl_alive_within` states.
pub proof fn lemma_ttl_expires(s: LruState, k: Seq<char>, now: u64)
    requires
        s.wf(),
        s.has_key(k),
        s.ttl is Some,
        now as int > s.stamp_of(k) as int + s.ttl->0 as int,
    ensures
        s.is_expired_at(k, now),
{
}

/// Law (TTL expiry, converse direction): within the TTL — at any clock
/// reading up to and including `stamp + d` — the entry is not expired, so
/// `get_at` returns its value. The same holds at any reading before the
/// entry's own stamp: an apparent clock reversal never expires an entry.
pub proof fn lemma_ttl_alive_within(s: LruState, k: Seq<char>, now: u64)
    requires
        s.wf(),
        s.has_key(k),
        s.ttl is Some ==> now as int <= s.stamp_of(k) as int + s.ttl->0 as int,
    ensures
        !s.is_expired_at(k, now),
{
}

} // verus!
