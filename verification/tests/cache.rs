use std::time::Duration;
use yagcdn::cache::{Cache, CacheResult};

#[test]
fn always_invalid() {
    let key: u8 = 0;
    let value: u8 = 1;
    let mut cache = Cache::new(Duration::from_secs(0));
    assert_eq!(CacheResult::Empty, cache.get(&key));
    cache.store(key, value);
    assert_eq!(CacheResult::Invalid, cache.get(&key));
}

#[test]
fn valid() {
    let key: u8 = 0;
    let value: u8 = 1;
    let mut cache = Cache::new(Duration::from_secs(100));
    assert_eq!(CacheResult::Empty, cache.get(&key));
    cache.store(key, value);
    assert_eq!(CacheResult::Cached(&value), cache.get(&key));
}

#[test]
fn invalidate() {
    let key: u8 = 0;
    let value: u8 = 1;
    let dur = Duration::from_secs(100);
    let mut cache = Cache::new(dur);
    assert_eq!(CacheResult::Empty, cache.get(&key));
    cache.store(key, value);
    assert_eq!(CacheResult::Cached(&value), cache.get(&key));
    assert!(cache.invalidate(&key));
    assert_eq!(CacheResult::Empty, cache.get(&key));
}

#[test]
fn clear() {
    let key: u8 = 0;
    let value: u8 = 1;
    let dur = Duration::from_secs(0);
    let mut cache = Cache::new(dur);
    assert_eq!(CacheResult::Empty, cache.get(&key));
    cache.store(key, value);
    assert_eq!(CacheResult::Invalid, cache.get(&key));
    cache.clear();
    assert_eq!(CacheResult::Empty, cache.get(&key));
}

// The explicit-instant twins of the clocked operations make the time-driven
// behaviour reproducible: an entry stored at instant `t` with a
// 500-nanosecond time-to-live reads as cached up to `t + 500` and as invalid
// after that, and a sweep at such an instant removes it.
#[test]
fn wait_for_invalidation_at_explicit_instants() {
    let key: u8 = 0;
    let value: u8 = 1;
    let mut cache: Cache<u8, u8> = Cache::with_ttl_nanos(500);
    assert_eq!(CacheResult::Empty, cache.get_at(&key, 1_000));
    cache.store_at(key, value, 1_000);
    assert_eq!(CacheResult::Cached(&value), cache.get_at(&key, 1_400));
    assert_eq!(CacheResult::Cached(&value), cache.get_at(&key, 1_500));
    assert_eq!(CacheResult::Invalid, cache.get_at(&key, 1_501));
}

#[test]
fn invalidate_after_expiry_at_explicit_instants() {
    let key: u8 = 0;
    let value: u8 = 1;
    let mut cache: Cache<u8, u8> = Cache::with_ttl_nanos(500);
    assert_eq!(CacheResult::Empty, cache.get_at(&key, 1_000));
    cache.store_at(key, value, 1_000);
    assert_eq!(CacheResult::Cached(&value), cache.get_at(&key, 1_200));
    assert_eq!(CacheResult::Invalid, cache.get_at(&key, 2_000));
    assert!(cache.invalidate(&key));
    assert_eq!(CacheResult::Empty, cache.get_at(&key, 2_000));
}

#[test]
fn clear_at_removes_expired_and_keeps_valid() {
    let mut cache: Cache<u8, u8> = Cache::with_ttl_nanos(500);
    cache.store_at(1, 10, 1_000); // expires at 1_500
    cache.store_at(2, 20, 1_900); // expires at 2_400
    cache.clear_at(2_000);
    assert_eq!(CacheResult::Empty, cache.get_at(&1, 2_000));
    assert_eq!(CacheResult::Cached(&20), cache.get_at(&2, 2_000));
}

#[test]
fn invalidate_twice_reports_false_the_second_time() {
    let key: u8 = 7;
    let value: u8 = 1;
    let mut cache: Cache<u8, u8> = Cache::new(Duration::from_secs(100));
    // a key that was never stored is not an error either
    assert!(!cache.invalidate(&9));
    cache.store(key, value);
    assert!(cache.invalidate(&key));
    assert!(!cache.invalidate(&key));
}

#[test]
fn store_returns_previous_value() {
    let key: u8 = 3;
    let mut cache: Cache<u8, u8> = Cache::new(Duration::from_secs(100));
    assert_eq!(None, cache.store(key, 1));
    assert_eq!(Some(1), cache.store(key, 2));
    assert_eq!(CacheResult::Cached(&2), cache.get(&key));
}

#[test]
fn ttl_seconds_round_down() {
    let cache: Cache<u8, u8> = Cache::new(Duration::from_secs(300));
    assert_eq!(300, cache.ttl_secs());
    let cache: Cache<u8, u8> = Cache::with_ttl_nanos(2_999_999_999);
    assert_eq!(2, cache.ttl_secs());
}
