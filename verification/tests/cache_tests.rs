use lru_ttl_cache::{CacheError, LruState, ThreadSafeLRUCache};
use std::time::Duration;

#[test]
fn test_basic_operations() {
    let cache = ThreadSafeLRUCache::new(3).unwrap();

    cache.put("key1".to_string(), "value1".to_string());
    cache.put("key2".to_string(), "value2".to_string());
    cache.put("key3".to_string(), "value3".to_string());

    assert_eq!(cache.get(&"key1".to_string()), Some("value1".to_string()));
    assert_eq!(cache.get(&"key2".to_string()), Some("value2".to_string()));

    cache.put("key4".to_string(), "value4".to_string());
    assert_eq!(cache.get(&"key3".to_string()), None);
}

#[test]
fn lru_keeps_recently_read_entries() {
    let cache = ThreadSafeLRUCache::new(3).unwrap();
    cache.put("a".to_string(), "1".to_string());
    cache.put("b".to_string(), "2".to_string());
    cache.put("c".to_string(), "3".to_string());

    assert_eq!(cache.get(&"a".to_string()), Some("1".to_string()));
    assert_eq!(cache.get(&"b".to_string()), Some("2".to_string()));

    cache.put("d".to_string(), "4".to_string());
    assert_eq!(cache.get(&"c".to_string()), None);
    assert_eq!(cache.get(&"a".to_string()), Some("1".to_string()));
    assert_eq!(cache.get(&"b".to_string()), Some("2".to_string()));
    assert_eq!(cache.get(&"d".to_string()), Some("4".to_string()));
}

#[test]
fn ttl_expiry_with_explicit_clock() {
    let mut s = LruState::with_ttl(10, 100).unwrap();
    s.put_at("k".to_string(), "v".to_string(), 0);
    assert_eq!(s.get_at(&"k".to_string(), 0), Some("v".to_string()));
    let before = s.len();
    assert_eq!(s.get_at(&"k".to_string(), 151), None);
    assert_eq!(s.len(), before - 1);
}

#[test]
fn ttl_boundary_is_strict() {
    let mut s = LruState::with_ttl(2, 100).unwrap();
    s.put_at("k".to_string(), "v".to_string(), 50);
    // exactly the TTL has passed: still alive, and the read restamps to 150
    assert_eq!(s.get_at(&"k".to_string(), 150), Some("v".to_string()));
    // one millisecond past the refreshed stamp's TTL: expired and purged
    assert_eq!(s.get_at(&"k".to_string(), 251), None);
    assert_eq!(s.len(), 0);
}

#[test]
fn update_in_place_keeps_count_and_evicts_nothing() {
    let mut s = LruState::new(2).unwrap();
    s.put_at("a".to_string(), "1".to_string(), 0);
    s.put_at("b".to_string(), "2".to_string(), 1);
    s.put_at("a".to_string(), "9".to_string(), 2);
    assert_eq!(s.len(), 2);
    assert_eq!(s.get_at(&"a".to_string(), 3), Some("9".to_string()));
    assert_eq!(s.get_at(&"b".to_string(), 4), Some("2".to_string()));
}

#[test]
fn capacity_never_exceeded() {
    let mut s = LruState::new(3).unwrap();
    for i in 0..10u64 {
        s.put_at(format!("k{}", i), format!("v{}", i), i);
        assert!(s.len() <= 3);
    }
    assert_eq!(s.len(), 3);
}

#[test]
fn eviction_picks_least_recently_used() {
    let mut s = LruState::new(3).unwrap();
    s.put_at("a".to_string(), "1".to_string(), 0);
    s.put_at("b".to_string(), "2".to_string(), 1);
    s.put_at("c".to_string(), "3".to_string(), 2);
    // touch a: b becomes the least recently used
    assert_eq!(s.get_at(&"a".to_string(), 3), Some("1".to_string()));
    s.put_at("d".to_string(), "4".to_string(), 4);
    assert_eq!(s.get_at(&"b".to_string(), 5), None);
    assert_eq!(s.get_at(&"a".to_string(), 6), Some("1".to_string()));
    assert_eq!(s.get_at(&"c".to_string(), 7), Some("3".to_string()));
    assert_eq!(s.get_at(&"d".to_string(), 8), Some("4".to_string()));
}

#[test]
fn read_refreshes_recency() {
    let mut s = LruState::new(2).unwrap();
    s.put_at("a".to_string(), "1".to_string(), 0);
    s.put_at("b".to_string(), "2".to_string(), 1);
    assert_eq!(s.get_at(&"a".to_string(), 2), Some("1".to_string()));
    s.put_at("c".to_string(), "3".to_string(), 3);
    assert_eq!(s.get_at(&"b".to_string(), 4), None);
    assert_eq!(s.get_at(&"a".to_string(), 5), Some("1".to_string()));
}

#[test]
fn remove_returns_value_and_touches_nothing_else() {
    let mut s = LruState::new(3).unwrap();
    s.put_at("a".to_string(), "1".to_string(), 0);
    s.put_at("b".to_string(), "2".to_string(), 1);
    assert_eq!(s.remove(&"a".to_string()), Some("1".to_string()));
    assert_eq!(s.remove(&"a".to_string()), None);
    assert_eq!(s.len(), 1);
    assert_eq!(s.get_at(&"b".to_string(), 2), Some("2".to_string()));
}

#[test]
fn clear_empties_but_keeps_configuration() {
    let mut s = LruState::new(2).unwrap();
    s.put_at("a".to_string(), "1".to_string(), 0);
    s.put_at("b".to_string(), "2".to_string(), 1);
    s.clear();
    assert_eq!(s.len(), 0);
    assert!(s.is_empty());
    // the capacity still bounds the store after a clear
    s.put_at("c".to_string(), "3".to_string(), 2);
    s.put_at("d".to_string(), "4".to_string(), 3);
    s.put_at("e".to_string(), "5".to_string(), 4);
    assert_eq!(s.len(), 2);
    assert_eq!(s.get_at(&"c".to_string(), 5), None);
}

#[test]
fn zero_capacity_is_invalid_configuration() {
    assert!(matches!(LruState::new(0), Err(CacheError::InvalidConfiguration)));
    assert!(matches!(LruState::with_ttl(0, 5), Err(CacheError::InvalidConfiguration)));
    assert!(matches!(ThreadSafeLRUCache::new(0), Err(CacheError::InvalidConfiguration)));
    assert!(matches!(
        ThreadSafeLRUCache::with_ttl(0, Duration::from_millis(5)),
        Err(CacheError::InvalidConfiguration)
    ));
}

#[test]
fn clock_going_backwards_never_expires() {
    let mut s = LruState::with_ttl(2, 10).unwrap();
    s.put_at("k".to_string(), "v".to_string(), 100);
    // an earlier clock reading neither expires the entry nor lowers its stamp
    assert_eq!(s.get_at(&"k".to_string(), 50), Some("v".to_string()));
    assert_eq!(s.get_at(&"k".to_string(), 110), Some("v".to_string()));
    assert_eq!(s.get_at(&"k".to_string(), 121), None);
}

#[test]
fn without_ttl_entries_never_expire() {
    let mut s = LruState::new(2).unwrap();
    s.put_at("k".to_string(), "v".to_string(), 0);
    assert_eq!(s.get_at(&"k".to_string(), u64::MAX), Some("v".to_string()));
}

#[test]
fn evict_lru_removes_front() {
    let mut s = LruState::new(4).unwrap();
    s.evict_lru();
    assert_eq!(s.len(), 0);
    s.put_at("a".to_string(), "1".to_string(), 0);
    s.put_at("b".to_string(), "2".to_string(), 1);
    s.evict_lru();
    assert_eq!(s.len(), 1);
    assert_eq!(s.get_at(&"a".to_string(), 2), None);
    assert_eq!(s.get_at(&"b".to_string(), 3), Some("2".to_string()));
}

#[test]
fn shell_remove_clear_and_introspection() {
    let cache = ThreadSafeLRUCache::new(2).unwrap();
    assert!(cache.is_empty());
    cache.put("k1".to_string(), "v1".to_string());
    assert_eq!(cache.len(), 1);
    assert_eq!(cache.remove(&"k1".to_string()), Some("v1".to_string()));
    assert_eq!(cache.remove(&"k1".to_string()), None);
    assert!(cache.is_empty());
    cache.put("k2".to_string(), "v2".to_string());
    cache.clear();
    assert!(cache.is_empty());
    assert_eq!(cache.get(&"k2".to_string()), None);
}

#[test]
fn ttl_cache_serves_fresh_reads() {
    // a generous TTL on the real clock: an immediate read is a hit
    let cache = ThreadSafeLRUCache::with_ttl(10, Duration::from_secs(3600)).unwrap();
    cache.put("k".to_string(), "v".to_string());
    assert_eq!(cache.get(&"k".to_string()), Some("v".to_string()));
    assert_eq!(cache.len(), 1);
}
