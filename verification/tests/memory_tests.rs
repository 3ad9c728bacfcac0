use not_redis::config::{MaxMemoryPolicy, StorageConfig};
use not_redis::expire::ExpirationManager;
use not_redis::keyspace::Keyspace;
use not_redis::memory::MemoryTracker;
use not_redis::types::{RedisData, StoredValue};

fn entry(bytes: &[u8], expire_at: Option<u64>) -> StoredValue {
    StoredValue { data: RedisData::String(bytes.to_vec()), expire_at }
}

#[test]
fn tracker_credits_and_debits_exact_costs() {
    let mut tracker = MemoryTracker::new();
    assert_eq!(MemoryTracker::cost_of(b"key", &entry(b"value", None)), 3 + 50 + 5);
    assert_eq!(tracker.add_memory(b"key", &entry(b"value", None)), 58);
    assert_eq!(tracker.current_memory(), 58);
    assert_eq!(tracker.add_memory(b"k2", &entry(b"", None)), 52);
    assert_eq!(tracker.current_memory(), 110);
    assert_eq!(tracker.charged_size(b"key"), 58);
    assert_eq!(tracker.charged_size(b"nope"), 0);
    assert_eq!(tracker.add_memory(b"key", &entry(b"v", None)), 54);
    assert_eq!(tracker.current_memory(), 106);
    assert_eq!(tracker.record_count(), 2);
    assert_eq!(tracker.remove_memory(b"key"), 54);
    assert_eq!(tracker.remove_memory(b"key"), 0);
    assert_eq!(tracker.current_memory(), 52);
    tracker.reset();
    assert_eq!(tracker.current_memory(), 0);
    assert_eq!(tracker.record_count(), 0);
}

#[test]
fn tracker_projects_the_pending_write() {
    let mut tracker = MemoryTracker::new();
    assert!(!tracker.is_enabled());
    assert!(!tracker.check_eviction_needed(1_000));
    assert!(!tracker.should_reject_write(1_000));
    tracker.set_maxmemory(Some(100));
    assert!(tracker.is_enabled());
    tracker.add_memory(b"k", &entry(b"", None));
    assert_eq!(tracker.current_memory(), 51);
    assert!(!tracker.should_reject_write(49));
    assert!(tracker.should_reject_write(50));
    assert!(!tracker.check_eviction_needed(50));
    tracker.set_maxmemory_policy(MaxMemoryPolicy::AllKeysLru);
    assert!(tracker.check_eviction_needed(50));
    assert!(!tracker.check_eviction_needed(49));
    assert!(!tracker.should_reject_write(50));
    assert_eq!(tracker.get_maxmemory(), Some(100));
    assert_eq!(tracker.get_maxmemory_policy(), MaxMemoryPolicy::AllKeysLru);
}

fn filled(policy: MaxMemoryPolicy) -> MemoryTracker {
    let mut tracker = MemoryTracker::new();
    tracker.set_maxmemory(Some(1_000));
    tracker.set_maxmemory_policy(policy);
    tracker.add_memory(b"a", &entry(b"1", Some(300)));
    tracker.add_memory(b"b", &entry(b"22", None));
    tracker.add_memory(b"c", &entry(b"333", Some(100)));
    tracker.add_memory(b"d", &entry(b"4444", Some(200)));
    tracker
}

#[test]
fn tracker_lru_picks_least_recent_candidate() {
    let mut tracker = filled(MaxMemoryPolicy::AllKeysLru);
    assert_eq!(tracker.evict_one(0), Some(b"a".to_vec()));
    tracker.record_read(b"a");
    assert_eq!(tracker.evict_one(0), Some(b"b".to_vec()));
    let mut volatile = filled(MaxMemoryPolicy::VolatileLru);
    volatile.record_read(b"a");
    assert_eq!(volatile.evict_one(0), Some(b"c".to_vec()));
    assert_eq!(volatile.evict_lru(false), Some(b"b".to_vec()));
}

#[test]
fn tracker_lfu_picks_lowest_counter_first_among_ties() {
    let mut tracker = filled(MaxMemoryPolicy::AllKeysLfu);
    assert_eq!(tracker.evict_one(0), Some(b"a".to_vec()));
    tracker.record_read(b"a");
    tracker.record_read(b"b");
    assert_eq!(tracker.evict_one(0), Some(b"c".to_vec()));
    tracker.record_read(b"c");
    tracker.record_read(b"d");
    tracker.record_read(b"d");
    tracker.record_read(b"a");
    assert_eq!(tracker.evict_one(0), Some(b"b".to_vec()));
    assert_eq!(tracker.evict_lfu(true), Some(b"c".to_vec()));
}

#[test]
fn tracker_ttl_picks_earliest_deadline() {
    let tracker = filled(MaxMemoryPolicy::VolatileTtl);
    assert_eq!(tracker.evict_one(0), Some(b"c".to_vec()));
    assert_eq!(tracker.evict_ttl(), Some(b"c".to_vec()));
}

#[test]
fn tracker_random_picks_by_entropy() {
    let tracker = filled(MaxMemoryPolicy::AllKeysRandom);
    assert_eq!(tracker.evict_one(0), Some(b"a".to_vec()));
    assert_eq!(tracker.evict_one(5), Some(b"b".to_vec()));
    assert_eq!(tracker.evict_one(7), Some(b"d".to_vec()));
    let volatile = filled(MaxMemoryPolicy::VolatileRandom);
    assert_eq!(volatile.evict_one(1), Some(b"c".to_vec()));
    assert_eq!(volatile.evict_one(3), Some(b"a".to_vec()));
    assert_eq!(volatile.evict_random(true, 2), Some(b"d".to_vec()));
}

#[test]
fn tracker_without_candidates_picks_nothing() {
    let tracker = filled(MaxMemoryPolicy::NoEviction);
    assert_eq!(tracker.evict_one(0), None);
    let mut empty = MemoryTracker::new();
    empty.set_maxmemory_policy(MaxMemoryPolicy::AllKeysLru);
    assert_eq!(empty.evict_one(0), None);
    empty.set_maxmemory_policy(MaxMemoryPolicy::VolatileTtl);
    empty.add_memory(b"k", &entry(b"v", None));
    assert_eq!(empty.evict_one(0), None);
    assert_eq!(empty.reclaimable(), 0);
}

#[test]
fn tracker_reclaimable_sums_candidates() {
    let tracker = filled(MaxMemoryPolicy::VolatileLru);
    // a: 1+50+1, c: 1+50+3, d: 1+50+4
    assert_eq!(tracker.reclaimable(), 52 + 54 + 55);
    assert_eq!(tracker.reclaimable_except(b"c"), 52 + 55);
    assert_eq!(tracker.reclaimable_except(b"b"), 52 + 54 + 55);
    let all = filled(MaxMemoryPolicy::AllKeysLru);
    assert_eq!(all.reclaimable(), 52 + 53 + 54 + 55);
    assert_eq!(all.current_memory(), 52 + 53 + 54 + 55);
}

#[test]
fn schedule_orders_by_deadline_and_sweeps_prefix() {
    let mut schedule = ExpirationManager::new(100);
    assert_eq!(schedule.sweep_interval(), 100);
    schedule.schedule_expiration(b"late".to_vec(), 300);
    schedule.schedule_expiration(b"early".to_vec(), 100);
    schedule.schedule_expiration(b"mid".to_vec(), 200);
    schedule.schedule_expiration(b"mid".to_vec(), 200);
    schedule.schedule_expiration(b"twin".to_vec(), 100);
    assert_eq!(schedule.len(), 4);
    assert!(schedule.is_scheduled(b"mid", 200));
    assert!(!schedule.is_scheduled(b"mid", 201));
    assert_eq!(schedule.first_due(99), None);
    assert_eq!(schedule.first_due(100), Some(b"early".to_vec()));
    assert_eq!(schedule.sweep(99), Vec::<Vec<u8>>::new());
    assert_eq!(schedule.sweep(200), vec![b"early".to_vec(), b"twin".to_vec(), b"mid".to_vec()]);
    assert_eq!(schedule.len(), 1);
    assert_eq!(schedule.sweep(200), Vec::<Vec<u8>>::new());
    schedule.clear_all();
    assert_eq!(schedule.len(), 0);
}

#[test]
fn schedule_cancel_strikes_every_mention() {
    let mut schedule = ExpirationManager::new(10);
    schedule.schedule_expiration(b"k".to_vec(), 100);
    schedule.schedule_expiration(b"other".to_vec(), 150);
    schedule.schedule_expiration(b"k".to_vec(), 200);
    schedule.cancel_expiration(b"k");
    assert_eq!(schedule.len(), 1);
    assert!(schedule.is_scheduled(b"other", 150));
    schedule.cancel_expiration(b"absent");
    assert_eq!(schedule.len(), 1);
}

#[test]
fn keyspace_stores_and_removes_entries() {
    let mut keyspace = Keyspace::new();
    assert_eq!(keyspace.len(), 0);
    keyspace.insert(b"a".to_vec(), entry(b"1", None));
    keyspace.insert(b"b".to_vec(), entry(b"2", Some(5)));
    keyspace.insert(b"a".to_vec(), entry(b"3", None));
    assert_eq!(keyspace.len(), 2);
    assert!(keyspace.contains_key(b"a"));
    assert!(!keyspace.contains_key(b"c"));
    let held = keyspace.get(b"b").unwrap();
    assert_eq!(held.expire_at, Some(5));
    let mut keys = keyspace.keys();
    keys.sort();
    assert_eq!(keys, vec![b"a".to_vec(), b"b".to_vec()]);
    let removed = keyspace.remove(b"a").unwrap();
    match removed.data {
        RedisData::String(bytes) => assert_eq!(bytes, b"3".to_vec()),
        _ => panic!("expected a string"),
    }
    assert!(keyspace.remove(b"a").is_none());
    assert!(keyspace.get(b"a").is_none());
    keyspace.clear();
    assert_eq!(keyspace.len(), 0);
}

#[test]
fn config_builders_and_policy_names() {
    let config = StorageConfig::new();
    assert_eq!(config.maxmemory, None);
    assert_eq!(config.maxmemory_policy, MaxMemoryPolicy::NoEviction);
    let config = config.with_maxmemory(64).with_maxmemory_policy(MaxMemoryPolicy::VolatileTtl);
    assert_eq!(config.maxmemory, Some(64));
    assert_eq!(config.maxmemory_policy, MaxMemoryPolicy::VolatileTtl);
    assert_eq!(StorageConfig::default(), StorageConfig::new());
    assert_eq!(MaxMemoryPolicy::default(), MaxMemoryPolicy::NoEviction);
    let all = [
        (MaxMemoryPolicy::NoEviction, "noeviction", false),
        (MaxMemoryPolicy::AllKeysLru, "allkeys-lru", false),
        (MaxMemoryPolicy::AllKeysRandom, "allkeys-random", false),
        (MaxMemoryPolicy::AllKeysLfu, "allkeys-lfu", false),
        (MaxMemoryPolicy::VolatileLru, "volatile-lru", true),
        (MaxMemoryPolicy::VolatileRandom, "volatile-random", true),
        (MaxMemoryPolicy::VolatileTtl, "volatile-ttl", true),
        (MaxMemoryPolicy::VolatileLfu, "volatile-lfu", true),
    ];
    for (policy, name, volatile) in all {
        assert_eq!(policy.as_str(), name);
        assert_eq!(MaxMemoryPolicy::from_str(name), Some(policy));
        assert_eq!(MaxMemoryPolicy::from_name(name), Some(policy));
        assert_eq!(policy.is_volatile(), volatile);
    }
    assert_eq!(MaxMemoryPolicy::from_str("ALLKEYS-LRU"), Some(MaxMemoryPolicy::AllKeysLru));
    assert_eq!(MaxMemoryPolicy::from_str("Volatile-TTL"), Some(MaxMemoryPolicy::VolatileTtl));
    assert_eq!(MaxMemoryPolicy::from_name("ALLKEYS-LRU"), None);
    assert_eq!(MaxMemoryPolicy::from_str("lru"), None);
    assert_eq!(MaxMemoryPolicy::from_str(""), None);
    assert!(MaxMemoryPolicy::AllKeysLru.is_lru());
    assert!(MaxMemoryPolicy::VolatileLfu.is_lfu());
    assert!(MaxMemoryPolicy::VolatileRandom.is_random());
    assert!(!MaxMemoryPolicy::VolatileTtl.is_lru());
}
