use not_redis::config::{MaxMemoryPolicy, StorageConfig};
use not_redis::engine::StorageEngine;
use not_redis::error::RedisError;
use not_redis::sorted_set::ScoreBound;
use not_redis::strings::SetOptions;
use not_redis::value::Value;
use not_redis::{hashes, keys, lists, server, sets, strings, zsets};

fn s(text: &str) -> Value {
    Value::String(text.as_bytes().to_vec())
}

fn arr(items: &[&str]) -> Value {
    Value::Array(items.iter().map(|t| s(t)).collect())
}

fn fresh() -> StorageEngine {
    StorageEngine::new(100)
}

#[test]
fn string_round_trip_scenario() {
    let mut e = fresh();
    assert_eq!(strings::set(&mut e, b"k", b"v".to_vec()), Ok(Value::Okay));
    assert_eq!(strings::get(&mut e, b"k"), Ok(s("v")));
    assert_eq!(keys::del(&mut e, b"k"), Ok(Value::Int(1)));
    assert_eq!(strings::get(&mut e, b"k"), Ok(Value::Null));
    assert_eq!(keys::del(&mut e, b"k"), Ok(Value::Int(0)));
}

#[test]
fn wrong_type_scenario() {
    let mut e = fresh();
    lists::lpush(&mut e, b"k", b"a".to_vec()).unwrap();
    assert_eq!(strings::get(&mut e, b"k"), Err(RedisError::WrongType));
    assert_eq!(strings::append(&mut e, b"k", b"x"), Err(RedisError::WrongType));
    assert_eq!(sets::sadd(&mut e, b"k", b"m".to_vec()), Err(RedisError::WrongType));
    assert_eq!(hashes::hget(&mut e, b"k", b"f"), Err(RedisError::WrongType));
    assert_eq!(zsets::zcard(&mut e, b"k"), Err(RedisError::WrongType));
    assert_eq!(lists::llen(&mut e, b"k"), Ok(Value::Int(1)));
    assert_eq!(lists::lrange(&mut e, b"k", 0, -1), Ok(arr(&["a"])));
}

#[test]
fn set_with_options() {
    let mut e = fresh();
    let nx = SetOptions { nx: true, ..SetOptions::new() };
    let xx = SetOptions { xx: true, ..SetOptions::new() };
    assert_eq!(strings::set_options(&mut e, b"k", b"1".to_vec(), xx), Ok(Value::Null));
    assert_eq!(strings::get(&mut e, b"k"), Ok(Value::Null));
    assert_eq!(strings::set_options(&mut e, b"k", b"1".to_vec(), nx), Ok(Value::Okay));
    assert_eq!(strings::set_options(&mut e, b"k", b"2".to_vec(), nx), Ok(Value::Null));
    assert_eq!(strings::get(&mut e, b"k"), Ok(s("1")));
    assert_eq!(strings::set_options(&mut e, b"k", b"3".to_vec(), xx), Ok(Value::Okay));
    assert_eq!(strings::get(&mut e, b"k"), Ok(s("3")));
    let ex = SetOptions { ex: Some(10), ..SetOptions::new() };
    assert_eq!(strings::set_options(&mut e, b"k", b"4".to_vec(), ex), Ok(Value::Okay));
    assert_eq!(keys::pttl(&mut e, b"k"), Ok(Value::Int(10_000)));
    let px = SetOptions { px: Some(1_500), ..SetOptions::new() };
    assert_eq!(strings::set_options(&mut e, b"k", b"5".to_vec(), px), Ok(Value::Okay));
    assert_eq!(keys::pttl(&mut e, b"k"), Ok(Value::Int(1_500)));
    assert_eq!(keys::ttl(&mut e, b"k"), Ok(Value::Int(1)));
    assert_eq!(strings::set(&mut e, b"k", b"6".to_vec()), Ok(Value::Okay));
    assert_eq!(keys::ttl(&mut e, b"k"), Ok(Value::Int(-1)));
    let both = SetOptions { ex: Some(1), px: Some(1), nx: false, xx: false };
    assert!(matches!(
        strings::set_options(&mut e, b"k", b"7".to_vec(), both),
        Err(RedisError::InvalidArgument(_))
    ));
    let clash = SetOptions { ex: None, px: None, nx: true, xx: true };
    assert!(matches!(
        strings::set_options(&mut e, b"k", b"7".to_vec(), clash),
        Err(RedisError::InvalidArgument(_))
    ));
    assert_eq!(strings::get(&mut e, b"k"), Ok(s("6")));
}

#[test]
fn append_strlen_and_ranges() {
    let mut e = fresh();
    assert_eq!(strings::strlen(&mut e, b"k"), Ok(Value::Int(0)));
    assert_eq!(strings::append(&mut e, b"k", b"Hello"), Ok(Value::Int(5)));
    assert_eq!(strings::append(&mut e, b"k", b" World"), Ok(Value::Int(11)));
    assert_eq!(strings::get(&mut e, b"k"), Ok(s("Hello World")));
    assert_eq!(strings::strlen(&mut e, b"k"), Ok(Value::Int(11)));
    assert_eq!(strings::getrange(&mut e, b"k", 0, 4), Ok(s("Hello")));
    assert_eq!(strings::getrange(&mut e, b"k", -5, -1), Ok(s("World")));
    assert_eq!(strings::getrange(&mut e, b"k", 0, -1), Ok(s("Hello World")));
    assert_eq!(strings::getrange(&mut e, b"k", 6, 100), Ok(s("World")));
    assert_eq!(strings::getrange(&mut e, b"k", 5, 2), Ok(s("")));
    assert_eq!(strings::getrange(&mut e, b"missing", 0, -1), Ok(s("")));
    assert_eq!(strings::setrange(&mut e, b"k", 6, b"Redis"), Ok(Value::Int(11)));
    assert_eq!(strings::get(&mut e, b"k"), Ok(s("Hello Redis")));
    assert_eq!(strings::setrange(&mut e, b"pad", 3, b"x"), Ok(Value::Int(4)));
    assert_eq!(strings::get(&mut e, b"pad"), Ok(Value::String(vec![0, 0, 0, b'x'])));
    assert_eq!(strings::setrange(&mut e, b"k", 9, b"sXY"), Ok(Value::Int(12)));
    assert_eq!(strings::get(&mut e, b"k"), Ok(s("Hello RedsXY")));
    assert_eq!(strings::setrange(&mut e, b"k", 2, b""), Ok(Value::Int(12)));
    assert!(matches!(
        strings::setrange(&mut e, b"k", -1, b"x"),
        Err(RedisError::InvalidArgument(_))
    ));
}

#[test]
fn counters() {
    let mut e = fresh();
    assert_eq!(strings::incr_by(&mut e, b"n", 5), Ok(Value::Int(5)));
    assert_eq!(strings::incr_by(&mut e, b"n", -7), Ok(Value::Int(-2)));
    assert_eq!(strings::get(&mut e, b"n"), Ok(s("-2")));
    assert_eq!(strings::decr_by(&mut e, b"n", 8), Ok(Value::Int(-10)));
    assert_eq!(strings::decr_by(&mut e, b"n", i64::MIN), Ok(Value::Int(i64::MAX - 9)));
    strings::set(&mut e, b"big", b"9223372036854775807".to_vec()).unwrap();
    assert!(matches!(strings::incr_by(&mut e, b"big", 1), Err(RedisError::InvalidArgument(_))));
    assert_eq!(strings::get(&mut e, b"big"), Ok(s("9223372036854775807")));
    assert!(matches!(
        strings::decr_by(&mut e, b"big", i64::MIN),
        Err(RedisError::InvalidArgument(_))
    ));
    strings::set(&mut e, b"text", b"abc".to_vec()).unwrap();
    assert_eq!(strings::incr_by(&mut e, b"text", 1), Err(RedisError::ParseError));
    lists::rpush(&mut e, b"l", b"x".to_vec()).unwrap();
    assert_eq!(strings::incr_by(&mut e, b"l", 1), Err(RedisError::WrongType));
}

#[test]
fn counters_keep_the_deadline() {
    let mut e = fresh();
    strings::set(&mut e, b"n", b"1".to_vec()).unwrap();
    keys::pexpire(&mut e, b"n", 500).unwrap();
    assert_eq!(strings::incr_by(&mut e, b"n", 1), Ok(Value::Int(2)));
    assert_eq!(keys::pttl(&mut e, b"n"), Ok(Value::Int(500)));
    assert_eq!(strings::append(&mut e, b"n", b"0"), Ok(Value::Int(2)));
    assert_eq!(keys::pttl(&mut e, b"n"), Ok(Value::Int(500)));
}

#[test]
fn multi_get_and_set() {
    let mut e = fresh();
    let pairs = vec![(b"a".to_vec(), b"1".to_vec()), (b"b".to_vec(), b"2".to_vec())];
    assert_eq!(strings::mset(&mut e, &pairs), Ok(Value::Okay));
    lists::rpush(&mut e, b"l", b"x".to_vec()).unwrap();
    let wanted = vec![b"a".to_vec(), b"missing".to_vec(), b"l".to_vec(), b"b".to_vec()];
    assert_eq!(
        strings::mget(&mut e, &wanted),
        Ok(Value::Array(vec![s("1"), Value::Null, Value::Null, s("2")]))
    );
    assert_eq!(strings::mget(&mut e, &Vec::new()), Ok(Value::Array(Vec::new())));
}

#[test]
fn multi_set_stops_when_memory_runs_out() {
    let mut e = StorageEngine::with_config(StorageConfig::new().with_maxmemory(110));
    let pairs = vec![
        (b"a".to_vec(), b"1".to_vec()),
        (b"b".to_vec(), b"2".to_vec()),
        (b"c".to_vec(), b"3".to_vec()),
    ];
    assert_eq!(strings::mset(&mut e, &pairs), Err(RedisError::OutOfMemory));
    assert_eq!(strings::get(&mut e, b"a"), Ok(s("1")));
    assert_eq!(strings::get(&mut e, b"b"), Ok(s("2")));
    assert_eq!(strings::get(&mut e, b"c"), Ok(Value::Null));
}

#[test]
fn bits() {
    let mut e = fresh();
    assert_eq!(strings::getbit(&mut e, b"b", 7), Ok(Value::Int(0)));
    assert_eq!(strings::setbit(&mut e, b"b", 7, true), Ok(Value::Int(0)));
    assert_eq!(strings::get(&mut e, b"b"), Ok(Value::String(vec![1])));
    assert_eq!(strings::setbit(&mut e, b"b", 0, true), Ok(Value::Int(0)));
    assert_eq!(strings::get(&mut e, b"b"), Ok(Value::String(vec![0x81])));
    assert_eq!(strings::setbit(&mut e, b"b", 7, true), Ok(Value::Int(1)));
    assert_eq!(strings::setbit(&mut e, b"b", 7, false), Ok(Value::Int(1)));
    assert_eq!(strings::get(&mut e, b"b"), Ok(Value::String(vec![0x80])));
    assert_eq!(strings::setbit(&mut e, b"b", 21, true), Ok(Value::Int(0)));
    assert_eq!(strings::get(&mut e, b"b"), Ok(Value::String(vec![0x80, 0, 0x04])));
    assert_eq!(strings::getbit(&mut e, b"b", 21), Ok(Value::Int(1)));
    assert_eq!(strings::getbit(&mut e, b"b", 22), Ok(Value::Int(0)));
    assert_eq!(strings::getbit(&mut e, b"b", 1_000), Ok(Value::Int(0)));
    assert_eq!(strings::bitcount(&mut e, b"b"), Ok(Value::Int(2)));
    assert_eq!(strings::bitcount_range(&mut e, b"b", 1, 2), Ok(Value::Int(1)));
    assert_eq!(strings::bitcount_range(&mut e, b"b", 0, 0), Ok(Value::Int(1)));
    assert_eq!(strings::bitcount_range(&mut e, b"b", -1, -1), Ok(Value::Int(1)));
    assert_eq!(strings::bitcount(&mut e, b"missing"), Ok(Value::Int(0)));
    strings::set(&mut e, b"f", b"foobar".to_vec()).unwrap();
    assert_eq!(strings::bitcount(&mut e, b"f"), Ok(Value::Int(26)));
    assert_eq!(strings::bitcount_range(&mut e, b"f", 1, 1), Ok(Value::Int(6)));
    assert!(matches!(
        strings::setbit(&mut e, b"b", 0x1_0000_0000, true),
        Err(RedisError::InvalidArgument(_))
    ));
}

#[test]
fn lists_push_pop_range_index() {
    let mut e = fresh();
    assert_eq!(lists::llen(&mut e, b"l"), Ok(Value::Int(0)));
    assert_eq!(lists::rpush(&mut e, b"l", b"b".to_vec()), Ok(Value::Int(1)));
    assert_eq!(lists::rpush(&mut e, b"l", b"c".to_vec()), Ok(Value::Int(2)));
    assert_eq!(lists::lpush(&mut e, b"l", b"a".to_vec()), Ok(Value::Int(3)));
    assert_eq!(lists::lrange(&mut e, b"l", 0, -1), Ok(arr(&["a", "b", "c"])));
    assert_eq!(lists::lrange(&mut e, b"l", -2, -1), Ok(arr(&["b", "c"])));
    assert_eq!(lists::lrange(&mut e, b"l", 1, 1), Ok(arr(&["b"])));
    assert_eq!(lists::lrange(&mut e, b"l", 0, 100), Ok(arr(&["a", "b", "c"])));
    assert_eq!(lists::lrange(&mut e, b"l", 5, 10), Ok(arr(&[])));
    assert_eq!(lists::lrange(&mut e, b"l", 2, 1), Ok(arr(&[])));
    assert_eq!(lists::lrange(&mut e, b"missing", 0, -1), Ok(arr(&[])));
    assert_eq!(lists::lindex(&mut e, b"l", 0), Ok(s("a")));
    assert_eq!(lists::lindex(&mut e, b"l", -1), Ok(s("c")));
    assert_eq!(lists::lindex(&mut e, b"l", 3), Ok(Value::Null));
    assert_eq!(lists::lindex(&mut e, b"l", -4), Ok(Value::Null));
    assert_eq!(lists::lpop(&mut e, b"l"), Ok(s("a")));
    assert_eq!(lists::rpop(&mut e, b"l"), Ok(s("c")));
    assert_eq!(lists::llen(&mut e, b"l"), Ok(Value::Int(1)));
    assert_eq!(lists::lpop(&mut e, b"l"), Ok(s("b")));
    assert_eq!(keys::key_exists(&mut e, b"l"), Ok(Value::Int(0)));
    assert_eq!(e.len(), 0);
    assert_eq!(e.current_memory_usage(), 0);
    assert_eq!(lists::lpop(&mut e, b"l"), Ok(Value::Null));
    assert_eq!(lists::rpop(&mut e, b"l"), Ok(Value::Null));
}

#[test]
fn sets_add_remove_members() {
    let mut e = fresh();
    assert_eq!(sets::sadd(&mut e, b"s", b"m".to_vec()), Ok(Value::Int(1)));
    let used = e.current_memory_usage();
    for _ in 0..5 {
        assert_eq!(sets::sadd(&mut e, b"s", b"m".to_vec()), Ok(Value::Int(0)));
    }
    assert_eq!(e.current_memory_usage(), used);
    assert_eq!(sets::smembers(&mut e, b"s"), Ok(arr(&["m"])));
    assert_eq!(sets::scard(&mut e, b"s"), Ok(Value::Int(1)));
    assert_eq!(sets::sadd(&mut e, b"s", b"n".to_vec()), Ok(Value::Int(1)));
    assert_eq!(sets::sismember(&mut e, b"s", b"n"), Ok(Value::Int(1)));
    assert_eq!(sets::sismember(&mut e, b"s", b"x"), Ok(Value::Int(0)));
    assert_eq!(sets::srem(&mut e, b"s", b"m"), Ok(Value::Int(1)));
    assert_eq!(sets::srem(&mut e, b"s", b"m"), Ok(Value::Int(0)));
    assert_eq!(sets::smembers(&mut e, b"s"), Ok(arr(&["n"])));
    assert_eq!(sets::spop(&mut e, b"s"), Ok(s("n")));
    assert_eq!(sets::spop(&mut e, b"s"), Ok(Value::Null));
    assert_eq!(sets::spop(&mut e, b"missing"), Ok(Value::Null));
    assert_eq!(sets::scard(&mut e, b"missing"), Ok(Value::Int(0)));
    assert_eq!(sets::smembers(&mut e, b"missing"), Ok(arr(&[])));
}

#[test]
fn sadd_contention_scenario_serialised() {
    let mut e = fresh();
    let mut added = 0;
    for _ in 0..100 {
        if sets::sadd(&mut e, b"s", b"m".to_vec()) == Ok(Value::Int(1)) {
            added += 1;
        }
    }
    assert_eq!(added, 1);
    assert_eq!(sets::scard(&mut e, b"s"), Ok(Value::Int(1)));
    assert_eq!(sets::smembers(&mut e, b"s"), Ok(arr(&["m"])));
}

#[test]
fn hashes_fields() {
    let mut e = fresh();
    assert_eq!(hashes::hset(&mut e, b"h", b"f1".to_vec(), b"v1".to_vec()), Ok(Value::Int(1)));
    assert_eq!(hashes::hset(&mut e, b"h", b"f2".to_vec(), b"v2".to_vec()), Ok(Value::Int(1)));
    assert_eq!(hashes::hset(&mut e, b"h", b"f1".to_vec(), b"v3".to_vec()), Ok(Value::Int(0)));
    assert_eq!(hashes::hget(&mut e, b"h", b"f1"), Ok(s("v3")));
    assert_eq!(hashes::hget(&mut e, b"h", b"nope"), Ok(Value::Null));
    assert_eq!(hashes::hget(&mut e, b"missing", b"f"), Ok(Value::Null));
    assert_eq!(hashes::hgetall(&mut e, b"h"), Ok(arr(&["f1", "v3", "f2", "v2"])));
    assert_eq!(hashes::hkeys(&mut e, b"h"), Ok(arr(&["f1", "f2"])));
    assert_eq!(hashes::hvals(&mut e, b"h"), Ok(arr(&["v3", "v2"])));
    assert_eq!(hashes::hlen(&mut e, b"h"), Ok(Value::Int(2)));
    assert_eq!(hashes::hexists(&mut e, b"h", b"f2"), Ok(Value::Int(1)));
    assert_eq!(hashes::hexists(&mut e, b"h", b"f9"), Ok(Value::Int(0)));
    let fields = vec![b"f2".to_vec(), b"zz".to_vec(), b"f1".to_vec()];
    assert_eq!(
        hashes::hmget(&mut e, b"h", &fields),
        Ok(Value::Array(vec![s("v2"), Value::Null, s("v3")]))
    );
    assert_eq!(hashes::hdel(&mut e, b"h", b"f1"), Ok(Value::Int(1)));
    assert_eq!(hashes::hdel(&mut e, b"h", b"f1"), Ok(Value::Int(0)));
    assert_eq!(hashes::hgetall(&mut e, b"h"), Ok(arr(&["f2", "v2"])));
    assert_eq!(hashes::hgetall(&mut e, b"missing"), Ok(arr(&[])));
    assert_eq!(hashes::hincr_by(&mut e, b"h", b"n".to_vec(), 4), Ok(Value::Int(4)));
    assert_eq!(hashes::hincr_by(&mut e, b"h", b"n".to_vec(), -6), Ok(Value::Int(-2)));
    assert_eq!(hashes::hget(&mut e, b"h", b"n"), Ok(s("-2")));
    assert_eq!(hashes::hincr_by(&mut e, b"h", b"f2".to_vec(), 1), Err(RedisError::ParseError));
}

#[test]
fn sorted_sets_rank_and_score() {
    let mut e = fresh();
    assert_eq!(zsets::zadd(&mut e, b"z", 2, b"two".to_vec()), Ok(Value::Int(1)));
    assert_eq!(zsets::zadd(&mut e, b"z", 1, b"one".to_vec()), Ok(Value::Int(1)));
    assert_eq!(zsets::zadd(&mut e, b"z", 2, b"deux".to_vec()), Ok(Value::Int(1)));
    assert_eq!(zsets::zadd(&mut e, b"z", 3, b"one".to_vec()), Ok(Value::Int(0)));
    assert_eq!(zsets::zrange(&mut e, b"z", 0, -1), Ok(arr(&["deux", "two", "one"])));
    assert_eq!(zsets::zrange(&mut e, b"z", -1, -1), Ok(arr(&["one"])));
    assert_eq!(zsets::zrange(&mut e, b"z", 0, 0), Ok(arr(&["deux"])));
    assert_eq!(zsets::zrange(&mut e, b"missing", 0, -1), Ok(arr(&[])));
    assert_eq!(zsets::zcard(&mut e, b"z"), Ok(Value::Int(3)));
    assert_eq!(zsets::zscore(&mut e, b"z", b"one"), Ok(Value::Int(3)));
    assert_eq!(zsets::zscore(&mut e, b"z", b"none"), Ok(Value::Null));
    assert_eq!(
        zsets::zrangebyscore(&mut e, b"z", ScoreBound::NegInf, ScoreBound::PosInf),
        Ok(arr(&["deux", "two", "one"]))
    );
    assert_eq!(
        zsets::zrangebyscore(&mut e, b"z", ScoreBound::Excl(2), ScoreBound::PosInf),
        Ok(arr(&["one"]))
    );
    assert_eq!(
        zsets::zrangebyscore(&mut e, b"z", ScoreBound::Incl(2), ScoreBound::Incl(2)),
        Ok(arr(&["deux", "two"]))
    );
    assert!(matches!(
        zsets::zrangebyscore(&mut e, b"z", ScoreBound::Incl(3), ScoreBound::Incl(2)),
        Err(RedisError::InvalidArgument(_))
    ));
    assert_eq!(
        zsets::zcount(&mut e, b"z", ScoreBound::Incl(2), ScoreBound::Incl(3)),
        Ok(Value::Int(3))
    );
    assert!(matches!(
        zsets::zcount(&mut e, b"z", ScoreBound::PosInf, ScoreBound::NegInf),
        Err(RedisError::InvalidArgument(_))
    ));
    assert_eq!(zsets::zrem(&mut e, b"z", b"two"), Ok(Value::Int(1)));
    assert_eq!(zsets::zrem(&mut e, b"z", b"two"), Ok(Value::Int(0)));
    assert_eq!(zsets::zrange(&mut e, b"z", 0, -1), Ok(arr(&["deux", "one"])));
}

#[test]
fn score_bounds_from_text() {
    assert_eq!(zsets::parse_score_bound(b"-inf"), Some(ScoreBound::NegInf));
    assert_eq!(zsets::parse_score_bound(b"+inf"), Some(ScoreBound::PosInf));
    assert_eq!(zsets::parse_score_bound(b"inf"), Some(ScoreBound::PosInf));
    assert_eq!(zsets::parse_score_bound(b"5"), Some(ScoreBound::Incl(5)));
    assert_eq!(zsets::parse_score_bound(b"-5"), Some(ScoreBound::Incl(-5)));
    assert_eq!(zsets::parse_score_bound(b"(5"), Some(ScoreBound::Excl(5)));
    assert_eq!(zsets::parse_score_bound(b"(-12"), Some(ScoreBound::Excl(-12)));
    assert_eq!(zsets::parse_score_bound(b"("), None);
    assert_eq!(zsets::parse_score_bound(b""), None);
    assert_eq!(zsets::parse_score_bound(b"abc"), None);
    assert_eq!(zsets::parse_score_bound(b"(inf"), None);
}

#[test]
fn key_space_operations() {
    let mut e = fresh();
    strings::set(&mut e, b"str", b"v".to_vec()).unwrap();
    lists::rpush(&mut e, b"list", b"v".to_vec()).unwrap();
    sets::sadd(&mut e, b"set", b"v".to_vec()).unwrap();
    hashes::hset(&mut e, b"hash", b"f".to_vec(), b"v".to_vec()).unwrap();
    zsets::zadd(&mut e, b"zset", 1, b"v".to_vec()).unwrap();
    assert_eq!(keys::key_type(&mut e, b"str"), Ok(s("string")));
    assert_eq!(keys::key_type(&mut e, b"list"), Ok(s("list")));
    assert_eq!(keys::key_type(&mut e, b"set"), Ok(s("set")));
    assert_eq!(keys::key_type(&mut e, b"hash"), Ok(s("hash")));
    assert_eq!(keys::key_type(&mut e, b"zset"), Ok(s("zset")));
    assert_eq!(keys::key_type(&mut e, b"nothing"), Ok(s("none")));
    assert_eq!(keys::key_exists(&mut e, b"str"), Ok(Value::Int(1)));
    assert_eq!(keys::unlink(&mut e, b"str"), Ok(Value::Int(1)));
    assert_eq!(keys::key_exists(&mut e, b"str"), Ok(Value::Int(0)));
    assert_eq!(server::dbsize(&mut e), Ok(Value::Int(4)));
    match keys::keys(&mut e, b"*set").unwrap() {
        Value::Array(mut found) => {
            found.sort_by(|a, b| format!("{:?}", a).cmp(&format!("{:?}", b)));
            assert_eq!(found, vec![s("set"), s("zset")]);
        },
        other => panic!("expected an array, got {:?}", other),
    }
    assert_eq!(keys::keys(&mut e, b"h?sh"), Ok(arr(&["hash"])));
    assert_eq!(keys::keys(&mut e, b"nomatch*"), Ok(arr(&[])));
    assert!(matches!(keys::keys(&mut e, b"[abc"), Err(RedisError::InvalidArgument(_))));
}

#[test]
fn keys_skips_entries_past_their_deadline() {
    let mut e = fresh();
    strings::set(&mut e, b"a", b"1".to_vec()).unwrap();
    strings::set(&mut e, b"b", b"2".to_vec()).unwrap();
    keys::pexpire(&mut e, b"a", 10).unwrap();
    e.observe(10, 0, 0);
    assert_eq!(keys::keys(&mut e, b"*"), Ok(arr(&["b"])));
    assert_eq!(server::dbsize(&mut e), Ok(Value::Int(1)));
}

#[test]
fn rename_moves_entry_with_its_deadline() {
    let mut e = fresh();
    strings::set(&mut e, b"src", b"v".to_vec()).unwrap();
    keys::pexpire(&mut e, b"src", 700).unwrap();
    strings::set(&mut e, b"dst", b"old".to_vec()).unwrap();
    assert_eq!(keys::rename(&mut e, b"src", b"dst"), Ok(Value::Okay));
    assert_eq!(strings::get(&mut e, b"src"), Ok(Value::Null));
    assert_eq!(strings::get(&mut e, b"dst"), Ok(s("v")));
    assert_eq!(keys::pttl(&mut e, b"dst"), Ok(Value::Int(700)));
    assert_eq!(e.len(), 1);
    assert_eq!(keys::rename(&mut e, b"dst", b"dst"), Ok(Value::Okay));
    assert_eq!(strings::get(&mut e, b"dst"), Ok(s("v")));
    assert!(matches!(keys::rename(&mut e, b"gone", b"x"), Err(RedisError::NoSuchKey(_))));
    assert_eq!(
        keys::rename(&mut e, b"gone", b"x"),
        Err(RedisError::NoSuchKey("gone".to_string()))
    );
}

#[test]
fn rename_nx_and_copy_respect_the_destination() {
    let mut e = fresh();
    strings::set(&mut e, b"a", b"1".to_vec()).unwrap();
    strings::set(&mut e, b"b", b"2".to_vec()).unwrap();
    assert_eq!(keys::rename_nx(&mut e, b"a", b"b"), Ok(Value::Int(0)));
    assert_eq!(strings::get(&mut e, b"a"), Ok(s("1")));
    assert_eq!(keys::rename_nx(&mut e, b"a", b"c"), Ok(Value::Int(1)));
    assert_eq!(strings::get(&mut e, b"a"), Ok(Value::Null));
    assert_eq!(strings::get(&mut e, b"c"), Ok(s("1")));
    assert!(matches!(keys::rename_nx(&mut e, b"a", b"z"), Err(RedisError::NoSuchKey(_))));
    assert_eq!(keys::copy(&mut e, b"c", b"b"), Ok(Value::Int(0)));
    assert_eq!(keys::copy(&mut e, b"nothing", b"d"), Ok(Value::Int(0)));
    sets::sadd(&mut e, b"s", b"m".to_vec()).unwrap();
    assert_eq!(keys::copy(&mut e, b"s", b"t"), Ok(Value::Int(1)));
    sets::sadd(&mut e, b"t", b"n".to_vec()).unwrap();
    assert_eq!(sets::smembers(&mut e, b"s"), Ok(arr(&["m"])));
    assert_eq!(sets::smembers(&mut e, b"t"), Ok(arr(&["m", "n"])));
}

#[test]
fn lifetimes() {
    let mut e = fresh();
    assert_eq!(keys::expire(&mut e, b"k", 10), Ok(Value::Int(0)));
    assert_eq!(keys::ttl(&mut e, b"k"), Ok(Value::Int(-2)));
    assert_eq!(keys::pttl(&mut e, b"k"), Ok(Value::Int(-2)));
    strings::set(&mut e, b"k", b"v".to_vec()).unwrap();
    assert_eq!(keys::ttl(&mut e, b"k"), Ok(Value::Int(-1)));
    assert_eq!(keys::expire_time(&mut e, b"k"), Ok(Value::Int(-1)));
    assert_eq!(keys::expire(&mut e, b"k", 10), Ok(Value::Int(1)));
    assert_eq!(keys::ttl(&mut e, b"k"), Ok(Value::Int(10)));
    assert_eq!(keys::pexpire(&mut e, b"k", 2_500), Ok(Value::Int(1)));
    assert_eq!(keys::ttl(&mut e, b"k"), Ok(Value::Int(2)));
    assert_eq!(keys::pttl(&mut e, b"k"), Ok(Value::Int(2_500)));
    assert_eq!(keys::persist(&mut e, b"k"), Ok(Value::Int(1)));
    assert_eq!(keys::persist(&mut e, b"k"), Ok(Value::Int(1)));
    assert_eq!(keys::ttl(&mut e, b"k"), Ok(Value::Int(-1)));
    assert_eq!(keys::persist(&mut e, b"missing"), Ok(Value::Int(0)));
    assert!(matches!(keys::expire(&mut e, b"k", -1), Err(RedisError::InvalidArgument(_))));
    assert!(matches!(keys::pexpire(&mut e, b"k", -1), Err(RedisError::InvalidArgument(_))));
    assert_eq!(keys::expire_time(&mut e, b"missing"), Ok(Value::Int(-2)));
}

#[test]
fn lifetimes_by_wall_clock() {
    let mut e = fresh();
    e.observe(5_000, 1_700_000_000_000_000, 0);
    strings::set(&mut e, b"k", b"v".to_vec()).unwrap();
    assert_eq!(keys::expire_at(&mut e, b"k", 1_700_000_060), Ok(Value::Int(1)));
    assert_eq!(keys::pttl(&mut e, b"k"), Ok(Value::Int(60_000)));
    assert_eq!(keys::expire_time(&mut e, b"k"), Ok(Value::Int(1_700_000_060)));
    assert_eq!(keys::pexpire_at(&mut e, b"k", 1_700_000_000_250), Ok(Value::Int(1)));
    assert_eq!(keys::pttl(&mut e, b"k"), Ok(Value::Int(250)));
    e.observe(5_249, 1_700_000_000_249_000, 0);
    assert_eq!(keys::key_exists(&mut e, b"k"), Ok(Value::Int(1)));
    e.observe(5_250, 1_700_000_000_250_000, 0);
    assert_eq!(keys::key_exists(&mut e, b"k"), Ok(Value::Int(0)));
    strings::set(&mut e, b"past", b"v".to_vec()).unwrap();
    assert_eq!(keys::expire_at(&mut e, b"past", 1), Ok(Value::Int(1)));
    assert_eq!(strings::get(&mut e, b"past"), Ok(Value::Null));
    assert!(matches!(keys::expire_at(&mut e, b"k", -5), Err(RedisError::InvalidArgument(_))));
}

#[test]
fn expired_keys_read_as_absent_everywhere() {
    let mut e = fresh();
    strings::set(&mut e, b"s", b"v".to_vec()).unwrap();
    lists::rpush(&mut e, b"l", b"v".to_vec()).unwrap();
    hashes::hset(&mut e, b"h", b"f".to_vec(), b"v".to_vec()).unwrap();
    for key in [&b"s"[..], &b"l"[..], &b"h"[..]] {
        keys::pexpire(&mut e, key, 50).unwrap();
    }
    e.observe(50 + 100, 0, 0);
    assert_eq!(strings::get(&mut e, b"s"), Ok(Value::Null));
    assert_eq!(lists::llen(&mut e, b"l"), Ok(Value::Int(0)));
    assert_eq!(hashes::hgetall(&mut e, b"h"), Ok(arr(&[])));
    assert_eq!(e.len(), 0);
    assert_eq!(strings::set_options(
        &mut e,
        b"s",
        b"new".to_vec(),
        SetOptions { nx: true, ..SetOptions::new() },
    ), Ok(Value::Okay));
}

#[test]
fn server_operations() {
    let mut e = fresh();
    assert_eq!(server::ping(&e), Ok(s("PONG")));
    assert_eq!(server::echo(&e, b"hello"), Ok(s("hello")));
    assert_eq!(server::dbsize(&mut e), Ok(Value::Int(0)));
    assert_eq!(server::lastsave(&e), Ok(Value::Int(0)));
    e.observe(1, 1_700_000_123_456_789, 0);
    e.observe(2, 1_800_000_000_000_001, 0);
    assert_eq!(server::lastsave(&e), Ok(Value::Int(1_700_000_123)));
    assert_eq!(
        server::time(&e),
        Ok(Value::Array(vec![Value::Int(1_800_000_000), Value::Int(1)]))
    );
    strings::set(&mut e, b"a", b"1".to_vec()).unwrap();
    assert_eq!(server::flushdb(&mut e), Ok(Value::Okay));
    assert_eq!(server::dbsize(&mut e), Ok(Value::Int(0)));
    strings::set(&mut e, b"a", b"1".to_vec()).unwrap();
    assert_eq!(server::flushall(&mut e), Ok(Value::Okay));
    assert_eq!(e.current_memory_usage(), 0);
}

#[test]
fn writes_under_memory_pressure_leave_state_unchanged_when_refused() {
    let mut e = StorageEngine::with_config(StorageConfig::new().with_maxmemory(120));
    assert_eq!(lists::rpush(&mut e, b"l", b"0123456789".to_vec()), Ok(Value::Int(1)));
    // 1 + 50 + 10 + 24 = 85 bytes are in use; another element needs 34 more
    assert_eq!(e.current_memory_usage(), 85);
    assert_eq!(lists::rpush(&mut e, b"l", b"0123456789".to_vec()), Ok(Value::Int(2)));
    assert_eq!(e.current_memory_usage(), 119);
    assert_eq!(lists::rpush(&mut e, b"l", b"x".to_vec()), Err(RedisError::OutOfMemory));
    assert_eq!(lists::llen(&mut e, b"l"), Ok(Value::Int(2)));
    assert_eq!(e.current_memory_usage(), 119);
    assert_eq!(strings::set(&mut e, b"other", b"".to_vec()), Err(RedisError::OutOfMemory));
    e.set_maxmemory_policy(MaxMemoryPolicy::AllKeysLru);
    assert_eq!(strings::set(&mut e, b"other", b"".to_vec()), Ok(Value::Okay));
    assert_eq!(lists::llen(&mut e, b"l"), Ok(Value::Int(0)));
    assert_eq!(e.current_memory_usage(), 55);
}

#[test]
fn empty_key_and_binary_values() {
    let mut e = fresh();
    assert_eq!(strings::set(&mut e, b"", vec![0, 255, 10, 13]), Ok(Value::Okay));
    assert_eq!(strings::get(&mut e, b""), Ok(Value::String(vec![0, 255, 10, 13])));
    assert_eq!(e.current_memory_usage(), 54);
    assert_eq!(strings::set(&mut e, &[0xff, 0x00], Vec::new()), Ok(Value::Okay));
    assert_eq!(strings::get(&mut e, &[0xff, 0x00]), Ok(Value::String(Vec::new())));
    assert_eq!(strings::get(&mut e, &[0xff]), Ok(Value::Null));
    let big = vec![b'x'; 10 * 1024];
    assert_eq!(strings::set(&mut e, b"big", big.clone()), Ok(Value::Okay));
    assert_eq!(strings::strlen(&mut e, b"big"), Ok(Value::Int(10_240)));
    assert_eq!(strings::get(&mut e, b"big"), Ok(Value::String(big)));
}
