use roboplc_middleware::data_cache::{DataCache, DataCacheEntry};

fn json(text: &str) -> serde_json::Value {
    serde_json::from_str(text).unwrap()
}

fn key(s: &str) -> String {
    s.to_string()
}

#[test]
fn test_data_cache_entry_new() {
    let values = json(r#"{"temperature": 25.5}"#);
    let entry = DataCacheEntry::new(values.clone(), 1234567890, 100, false);
    assert_eq!(entry.values, values);
    assert_eq!(entry.timestamp_ms, 1234567890);
    assert_eq!(entry.latency_us, 100);
    assert!(!entry.error);
}

#[test]
fn test_data_cache_basic_operations() {
    let mut cache = DataCache::new();
    assert!(cache.get(&key("nonexistent")).is_none());
    let values = json(r#"{"temperature": 25.5, "humidity": 60}"#);
    cache.set(&key("device1_temp"), DataCacheEntry::new(values.clone(), 1234567890, 100, false));
    let retrieved = cache.get(&key("device1_temp")).unwrap();
    assert_eq!(retrieved.values, values);
    assert_eq!(retrieved.timestamp_ms, 1234567890);
    assert_eq!(retrieved.latency_us, 100);
    assert!(!retrieved.error);
}

#[test]
fn test_data_cache_update_existing() {
    let mut cache = DataCache::new();
    cache.set(&key("key1"), DataCacheEntry::new(json(r#"{"value": 10}"#), 1000, 50, false));
    let values2 = json(r#"{"value": 20}"#);
    cache.set(&key("key1"), DataCacheEntry::new(values2.clone(), 2000, 60, false));
    let retrieved = cache.get(&key("key1")).unwrap();
    assert_eq!(retrieved.values, values2);
    assert_eq!(retrieved.timestamp_ms, 2000);
}

#[test]
fn test_data_cache_is_fresh() {
    let mut cache = DataCache::new();
    let now = 1_700_000_000_000u64;
    cache.set(&key("fresh_key"), DataCacheEntry::new(json(r#"{"value": 42}"#), now, 100, false));
    assert!(cache.is_fresh(&key("fresh_key"), 1000, now));
    cache.set(&key("stale_key"), DataCacheEntry::new(json(r#"{"value": 0}"#), now - 10000, 100, false));
    assert!(!cache.is_fresh(&key("stale_key"), 1000, now));
    assert!(!cache.is_fresh(&key("nonexistent"), 1000, now));
}

#[test]
fn test_data_cache_get_age() {
    let mut cache = DataCache::new();
    let now = 1_700_000_000_000u64;
    cache.set(&key("age_key"), DataCacheEntry::new(json(r#"{"value": 42}"#), now - 5000, 100, false));
    let age = cache.get_age(&key("age_key"), now).unwrap();
    assert!(age >= 4990 && age <= 5100);
    assert!(cache.get_age(&key("nonexistent"), now).is_none());
}

#[test]
fn test_data_cache_error_entry() {
    let mut cache = DataCache::new();
    cache.set(&key("error_key"), DataCacheEntry::new(json(r#"{"error": "timeout"}"#), 1234567890, 5000, true));
    let retrieved = cache.get(&key("error_key")).unwrap();
    assert!(retrieved.error);
    assert_eq!(retrieved.latency_us, 5000);
}

#[test]
fn data_cache_keeps_other_keys() {
    let mut cache = DataCache::new();
    cache.set(&key("a"), DataCacheEntry::new(1u32, 1, 1, false));
    cache.set(&key("b"), DataCacheEntry::new(2u32, 2, 2, false));
    cache.set(&key("a"), DataCacheEntry::new(3u32, 3, 3, false));
    assert_eq!(cache.get(&key("a")).unwrap().values, 3);
    assert_eq!(cache.get(&key("b")).unwrap().values, 2);
}
