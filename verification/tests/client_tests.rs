use not_redis::client::{Client, ClientBuilder};
use not_redis::clock::Clock;
use not_redis::commands::Commands;
use not_redis::config::MaxMemoryPolicy;
use not_redis::engine::StorageEngine;
use not_redis::error::RedisError;
use not_redis::value::Value;

#[test]
fn client_string_round_trip_scenario() {
    let mut client = Client::new();
    client.set("k", "v").unwrap();
    let got: String = client.get("k").unwrap();
    assert_eq!(got, "v");
    assert_eq!(client.del("k"), Ok(1));
    let gone: Option<String> = client.get("k").unwrap();
    assert_eq!(gone, None);
    assert_eq!(client.del("k"), Ok(0));
}

#[test]
fn client_expiration_sweep_scenario() {
    let mut client = Client::new();
    assert!(client.start());
    assert!(!client.start());
    client.observe(1_000, 0, 0);
    client.set("k", "v").unwrap();
    assert_eq!(client.expire("k", 1), Ok(true));
    client.observe(1_000 + 1_000 + 100, 0, 0);
    assert_eq!(client.sweep(), 1);
    assert_eq!(client.key_exists("k"), Ok(false));
    assert_eq!(client.ttl("k"), Ok(-2));
}

#[test]
fn client_wrong_type_scenario() {
    let mut client = Client::new();
    client.lpush("k", "a").unwrap();
    let got: Result<String, RedisError> = client.get("k");
    assert_eq!(got, Err(RedisError::WrongType));
    assert_eq!(client.llen("k"), Ok(1));
}

#[test]
fn client_lru_eviction_scenario() {
    let mut client = ClientBuilder::new()
        .maxmemory(160)
        .maxmemory_policy(MaxMemoryPolicy::AllKeysLru)
        .build();
    assert_eq!(client.get_maxmemory(), Some(160));
    assert_eq!(client.get_maxmemory_policy(), MaxMemoryPolicy::AllKeysLru);
    client.set("k1", "v").unwrap();
    client.set("k2", "v").unwrap();
    client.set("k3", "v").unwrap();
    let _: String = client.get("k1").unwrap();
    client.set("k4", "v").unwrap();
    assert_eq!(client.key_exists("k1"), Ok(true));
    assert_eq!(client.key_exists("k2"), Ok(false));
    assert_eq!(client.key_exists("k3"), Ok(true));
    assert_eq!(client.key_exists("k4"), Ok(true));
    assert!(client.current_memory_usage() <= 160);
}

#[test]
fn client_noeviction_reports_out_of_memory() {
    let mut client = Client::builder().maxmemory(0).build();
    assert_eq!(client.set("k", "v"), Err(RedisError::OutOfMemory));
    assert_eq!(client.lpush("l", "v"), Err(RedisError::OutOfMemory));
    assert_eq!(client.sadd("s", "v"), Err(RedisError::OutOfMemory));
    assert_eq!(client.hset("h", "f", "v"), Err(RedisError::OutOfMemory));
    assert_eq!(client.dbsize(), Ok(0));
    client.set_maxmemory(1_000);
    client.set_maxmemory_policy(MaxMemoryPolicy::VolatileLfu);
    assert_eq!(client.set("k", "v"), Ok(()));
}

#[test]
fn client_reads_replies_as_requested_types() {
    let mut client = Client::new();
    client.set("n", 42i64).unwrap();
    assert_eq!(client.get::<_, i64>("n"), Ok(42));
    assert_eq!(client.get::<_, String>("n"), Ok("42".to_string()));
    assert_eq!(client.get::<_, Vec<u8>>("n"), Ok(b"42".to_vec()));
    assert_eq!(client.get::<_, bool>("n"), Ok(false));
    assert_eq!(client.get::<_, Value>("n"), Ok(Value::String(b"42".to_vec())));
    assert_eq!(client.get::<_, Option<i64>>("missing"), Ok(None));
    assert_eq!(client.get::<_, i64>("missing"), Err(RedisError::ParseError));
    client.set("t", "text").unwrap();
    assert_eq!(client.get::<_, i64>("t"), Err(RedisError::ParseError));
    client.hset("h", "a", 1i64).unwrap();
    client.hset("h", "b", 2i64).unwrap();
    assert_eq!(client.hgetall::<_, Vec<String>>("h"), Ok(vec![
        "a".to_string(),
        "1".to_string(),
        "b".to_string(),
        "2".to_string(),
    ]));
    assert_eq!(client.hget::<_, _, i64>("h", "b"), Ok(2));
    client.sadd("s", "m").unwrap();
    assert_eq!(client.smembers::<_, Vec<Vec<u8>>>("s"), Ok(vec![b"m".to_vec()]));
}

#[test]
fn client_keys_can_be_any_argument() {
    let mut client = Client::new();
    client.set(7i64, true).unwrap();
    assert_eq!(client.get::<_, String>("7"), Ok("1".to_string()));
    client.set(vec![0u8, 1], vec![2u8]).unwrap();
    assert_eq!(client.get::<_, Vec<u8>>(vec![0u8, 1]), Ok(vec![2u8]));
    client.set(String::from("owned"), String::from("value")).unwrap();
    assert_eq!(client.get::<_, String>("owned"), Ok("value".to_string()));
    assert_eq!(client.dbsize(), Ok(3));
}

#[test]
fn client_over_an_existing_store() {
    let mut engine = StorageEngine::new(250);
    engine.set(b"k", not_redis::types::RedisData::String(b"v".to_vec()), None).unwrap();
    let mut client = Client::from_storage(engine);
    assert_eq!(client.get::<_, String>("k"), Ok("v".to_string()));
    let mut again = Client::with_storage(client.into_storage());
    assert_eq!(again.key_exists("k"), Ok(true));
    assert_eq!(again.flushdb(), Ok("OK".to_string()));
    assert_eq!(again.ping(), Ok("PONG".to_string()));
    assert_eq!(again.echo(12i64), Ok("12".to_string()));
    assert_eq!(Client::default().dbsize(), Ok(0));
    assert_eq!(ClientBuilder::default().build().get_maxmemory(), None);
}

#[test]
fn client_expire_rejects_negative_lifetimes() {
    let mut client = Client::new();
    client.set("k", "v").unwrap();
    assert!(matches!(client.expire("k", -1), Err(RedisError::InvalidArgument(_))));
    assert_eq!(client.ttl("k"), Ok(-1));
    assert!(client.persist("k"));
    assert!(!client.persist("missing"));
}

#[test]
fn client_tick_follows_the_machine_clock() {
    let clock = Clock::new();
    let mut client = Client::new();
    client.tick(&clock);
    client.set("k", "v").unwrap();
    assert_eq!(Commands::pexpire(&mut client, "k", 2), Ok(true));
    let start = clock.read().now_ms;
    while clock.read().now_ms < start + 5 {
        std::hint::spin_loop();
    }
    client.tick(&clock);
    assert_eq!(client.key_exists("k"), Ok(false));
    assert_eq!(client.ttl("k"), Ok(-2));
    let lastsave: i64 = Commands::lastsave(&mut client).unwrap();
    assert!(lastsave > 1_600_000_000);
    let time: Vec<i64> = Commands::time(&mut client).unwrap();
    assert!(time[0] >= lastsave);
    assert!((0..1_000_000).contains(&time[1]));
}

#[test]
fn clock_readings_never_go_back() {
    let clock = Clock::default();
    let first = clock.read();
    let second = clock.read();
    assert!(second.now_ms >= first.now_ms);
    assert!(first.wall_us > 1_600_000_000_000_000);
}
