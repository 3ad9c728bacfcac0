use not_redis::config::{MaxMemoryPolicy, StorageConfig};
use not_redis::engine::StorageEngine;
use not_redis::error::RedisError;
use not_redis::types::RedisData;

fn text(bytes: &[u8]) -> RedisData {
    RedisData::String(bytes.to_vec())
}

fn held(engine: &mut StorageEngine, key: &[u8]) -> Option<Vec<u8>> {
    match engine.get(key) {
        Some(entry) => match entry.data {
            RedisData::String(bytes) => Some(bytes),
            _ => panic!("expected a string"),
        },
        None => None,
    }
}

#[test]
fn engine_set_then_get_returns_value() {
    let mut engine = StorageEngine::new(100);
    engine.set(b"k", text(b"v"), None).unwrap();
    assert_eq!(held(&mut engine, b"k"), Some(b"v".to_vec()));
    assert_eq!(engine.len(), 1);
    assert!(!engine.is_empty());
}

#[test]
fn engine_charges_key_overhead_and_payload() {
    let mut engine = StorageEngine::new(100);
    engine.set(b"k1", text(b"v"), None).unwrap();
    // 2 bytes of key, 50 of overhead, 1 of payload
    assert_eq!(engine.current_memory_usage(), 53);
    engine.set(b"k1", text(b"value"), None).unwrap();
    assert_eq!(engine.current_memory_usage(), 57);
    assert!(engine.remove(b"k1"));
    assert_eq!(engine.current_memory_usage(), 0);
}

#[test]
fn engine_remove_twice_second_is_false() {
    let mut engine = StorageEngine::new(100);
    engine.set(b"k", text(b"v"), None).unwrap();
    assert!(engine.remove(b"k"));
    assert!(!engine.remove(b"k"));
    assert_eq!(engine.len(), 0);
}

#[test]
fn engine_lazily_purges_expired_entry_on_read() {
    let mut engine = StorageEngine::new(100);
    engine.set(b"k", text(b"v"), None).unwrap();
    assert!(engine.set_expiry(b"k", 50));
    engine.observe(49, 0, 0);
    assert_eq!(held(&mut engine, b"k"), Some(b"v".to_vec()));
    engine.observe(50, 0, 0);
    assert_eq!(held(&mut engine, b"k"), None);
    assert_eq!(engine.len(), 0);
    assert_eq!(engine.current_memory_usage(), 0);
}

#[test]
fn engine_sweep_removes_due_keys_only() {
    let mut engine = StorageEngine::new(100);
    engine.set(b"a", text(b"1"), Some(10)).unwrap();
    engine.set(b"b", text(b"2"), Some(20)).unwrap();
    engine.set(b"c", text(b"3"), None).unwrap();
    engine.observe(15, 0, 0);
    assert_eq!(engine.sweep(), 1);
    assert!(!engine.key_exists(b"a"));
    assert!(engine.key_exists(b"b"));
    assert!(engine.key_exists(b"c"));
    engine.observe(200, 0, 0);
    assert_eq!(engine.sweep(), 1);
    assert_eq!(engine.len(), 1);
}

#[test]
fn engine_expiration_sweep_scenario() {
    let mut engine = StorageEngine::new(100);
    engine.set(b"k", text(b"v"), None).unwrap();
    assert!(engine.set_expiry(b"k", 50));
    engine.observe(200, 0, 0);
    engine.sweep();
    assert!(!engine.key_exists(b"k"));
    assert_eq!(engine.ttl_query(b"k"), -2);
}

#[test]
fn engine_ttl_query_values() {
    let mut engine = StorageEngine::new(100);
    assert_eq!(engine.ttl_query(b"missing"), -2);
    engine.set(b"k", text(b"v"), None).unwrap();
    assert_eq!(engine.ttl_query(b"k"), -1);
    assert!(engine.set_expiry(b"k", 60_000));
    assert_eq!(engine.ttl_query(b"k"), 60);
    assert_eq!(engine.ttl(b"k"), Some(60_000));
    engine.observe(1_500, 0, 0);
    assert_eq!(engine.ttl_query(b"k"), 58);
    assert_eq!(engine.pttl_query(b"k", 1), 58_500);
}

#[test]
fn engine_persist_is_idempotent() {
    let mut engine = StorageEngine::new(100);
    engine.set(b"k", text(b"v"), Some(1_000)).unwrap();
    assert!(engine.persist(b"k"));
    assert_eq!(engine.ttl_query(b"k"), -1);
    let used = engine.current_memory_usage();
    assert!(engine.persist(b"k"));
    assert_eq!(engine.ttl_query(b"k"), -1);
    assert_eq!(engine.current_memory_usage(), used);
    assert!(!engine.persist(b"missing"));
}

#[test]
fn engine_noeviction_refuses_write_over_budget() {
    let config = StorageConfig::new().with_maxmemory(100);
    let mut engine = StorageEngine::with_config(config);
    engine.set(b"k1", text(b"v"), None).unwrap();
    let refused = engine.set(b"k2", text(b"v"), None);
    assert_eq!(refused, Err(RedisError::OutOfMemory));
    assert_eq!(engine.len(), 1);
    assert_eq!(engine.current_memory_usage(), 53);
    assert!(engine.current_memory_usage() <= 100);
}

#[test]
fn engine_maxmemory_zero_always_refuses_under_noeviction() {
    let config = StorageConfig::new().with_maxmemory(0);
    let mut engine = StorageEngine::with_config(config);
    assert_eq!(engine.set(b"k", text(b""), None), Err(RedisError::OutOfMemory));
    assert_eq!(engine.set(b"", text(b""), None), Err(RedisError::OutOfMemory));
    assert_eq!(engine.len(), 0);
}

#[test]
fn engine_lru_evicts_least_recently_used() {
    let config = StorageConfig::new().with_maxmemory(160).with_maxmemory_policy(
        MaxMemoryPolicy::AllKeysLru,
    );
    let mut engine = StorageEngine::with_config(config);
    engine.set(b"k1", text(b"v"), None).unwrap();
    engine.set(b"k2", text(b"v"), None).unwrap();
    engine.set(b"k3", text(b"v"), None).unwrap();
    assert_eq!(engine.current_memory_usage(), 159);
    assert!(engine.get(b"k1").is_some());
    engine.set(b"k4", text(b"v"), None).unwrap();
    assert!(engine.key_exists(b"k1"));
    assert!(!engine.key_exists(b"k2"));
    assert!(engine.key_exists(b"k3"));
    assert!(engine.key_exists(b"k4"));
    assert_eq!(engine.current_memory_usage(), 159);
}

#[test]
fn engine_volatile_ttl_evicts_earliest_deadline() {
    let config = StorageConfig::new().with_maxmemory(160).with_maxmemory_policy(
        MaxMemoryPolicy::VolatileTtl,
    );
    let mut engine = StorageEngine::with_config(config);
    engine.set(b"k1", text(b"v"), Some(100_000)).unwrap();
    engine.set(b"k2", text(b"v"), Some(10_000)).unwrap();
    engine.set(b"k3", text(b"v"), None).unwrap();
    engine.set(b"k4", text(b"v"), None).unwrap();
    assert!(engine.key_exists(b"k1"));
    assert!(!engine.key_exists(b"k2"));
    assert!(engine.key_exists(b"k3"));
    assert!(engine.key_exists(b"k4"));
}

#[test]
fn engine_volatile_policy_refuses_when_nothing_can_go() {
    let config = StorageConfig::new().with_maxmemory(110).with_maxmemory_policy(
        MaxMemoryPolicy::VolatileLru,
    );
    let mut engine = StorageEngine::with_config(config);
    engine.set(b"k1", text(b"v"), None).unwrap();
    engine.set(b"k2", text(b"v"), None).unwrap();
    assert_eq!(engine.set(b"k3", text(b"v"), None), Err(RedisError::OutOfMemory));
    assert_eq!(engine.len(), 2);
    assert_eq!(engine.current_memory_usage(), 106);
}

#[test]
fn engine_allkeys_policy_lets_a_lone_oversized_entry_in() {
    let config = StorageConfig::new().with_maxmemory(60).with_maxmemory_policy(
        MaxMemoryPolicy::AllKeysLru,
    );
    let mut engine = StorageEngine::with_config(config);
    engine.set(b"k1", text(b"v"), None).unwrap();
    engine.set(b"big", text(&[7u8; 100]), None).unwrap();
    assert_eq!(engine.len(), 1);
    assert!(engine.key_exists(b"big"));
    assert_eq!(engine.current_memory_usage(), 153);
    assert!(engine.current_memory_usage() <= 60 + 153);
}

#[test]
fn engine_lfu_evicts_lowest_counter() {
    let config = StorageConfig::new().with_maxmemory(160).with_maxmemory_policy(
        MaxMemoryPolicy::AllKeysLfu,
    );
    let mut engine = StorageEngine::with_config(config);
    engine.set(b"k1", text(b"v"), None).unwrap();
    engine.set(b"k2", text(b"v"), None).unwrap();
    engine.set(b"k3", text(b"v"), None).unwrap();
    assert!(engine.get(b"k1").is_some());
    assert!(engine.get(b"k3").is_some());
    engine.set(b"k4", text(b"v"), None).unwrap();
    assert!(engine.key_exists(b"k1"));
    assert!(!engine.key_exists(b"k2"));
    assert!(engine.key_exists(b"k3"));
}

#[test]
fn engine_random_policy_follows_entropy() {
    let config = StorageConfig::new().with_maxmemory(160).with_maxmemory_policy(
        MaxMemoryPolicy::AllKeysRandom,
    );
    let mut engine = StorageEngine::with_config(config);
    engine.set(b"k1", text(b"v"), None).unwrap();
    engine.set(b"k2", text(b"v"), None).unwrap();
    engine.set(b"k3", text(b"v"), None).unwrap();
    engine.observe(0, 0, 2);
    engine.set(b"k4", text(b"v"), None).unwrap();
    assert!(engine.key_exists(b"k1"));
    assert!(engine.key_exists(b"k2"));
    assert!(!engine.key_exists(b"k3"));
}

#[test]
fn engine_flush_resets_everything() {
    let mut engine = StorageEngine::new(100);
    engine.set(b"a", text(b"1"), Some(10)).unwrap();
    engine.set(b"b", text(b"2"), None).unwrap();
    engine.flush();
    assert_eq!(engine.len(), 0);
    assert_eq!(engine.current_memory_usage(), 0);
    engine.observe(1_000, 0, 0);
    assert_eq!(engine.sweep(), 0);
}

#[test]
fn engine_keys_lists_every_key_once() {
    let mut engine = StorageEngine::new(100);
    engine.set(b"a", text(b"1"), None).unwrap();
    engine.set(b"b", text(b"2"), None).unwrap();
    engine.set(b"a", text(b"3"), None).unwrap();
    let mut keys = engine.keys();
    keys.sort();
    assert_eq!(keys, vec![b"a".to_vec(), b"b".to_vec()]);
}

#[test]
fn engine_observe_never_turns_time_back() {
    let mut engine = StorageEngine::new(100);
    engine.observe(500, 1_700_000_000_000_000, 1);
    engine.observe(400, 1_700_000_001_000_000, 2);
    assert_eq!(engine.now_ms(), 500);
    assert_eq!(engine.wall_clock_us(), 1_700_000_001_000_000);
    assert_eq!(engine.started_at(), 1_700_000_000);
}

#[test]
fn engine_sweeper_is_started_once() {
    let mut engine = StorageEngine::new(250);
    assert_eq!(engine.sweep_interval_ms(), 250);
    assert!(engine.start_expiration_sweeper());
    assert!(!engine.start_expiration_sweeper());
}

#[test]
fn engine_config_can_change_later() {
    let mut engine = StorageEngine::new(100);
    assert_eq!(engine.get_maxmemory(), None);
    assert_eq!(engine.get_maxmemory_policy(), MaxMemoryPolicy::NoEviction);
    engine.set_maxmemory(1_000);
    engine.set_maxmemory_policy(MaxMemoryPolicy::VolatileRandom);
    assert_eq!(engine.get_maxmemory(), Some(1_000));
    assert_eq!(engine.get_maxmemory_policy(), MaxMemoryPolicy::VolatileRandom);
}
