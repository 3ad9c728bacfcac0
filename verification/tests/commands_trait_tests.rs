use not_redis::client::Client;
use not_redis::commands::{Commands, CopyOptions, IntegerReplyOrNoOp};
use not_redis::error::RedisError;
use not_redis::strings::SetOptions;
use not_redis::value::Value;

fn strings_via<C: Commands>(c: &mut C) {
    let ok: String = c.set("k", "v").unwrap();
    assert_eq!(ok, "OK");
    let v: String = c.get("k").unwrap();
    assert_eq!(v, "v");
    let len: i64 = c.append("k", "alue").unwrap();
    assert_eq!(len, 5);
    let part: String = c.getrange("k", 1, -2).unwrap();
    assert_eq!(part, "alu");
    let len: usize = c.setrange("k", 5, "!").unwrap();
    assert_eq!(len, 6);
    let len: i64 = c.strlen("k").unwrap();
    assert_eq!(len, 6);
    let n: i64 = c.incr("n", 10i64).unwrap();
    assert_eq!(n, 10);
    let n: i64 = c.decr("n", "3").unwrap();
    assert_eq!(n, 7);
    let bad: Result<i64, RedisError> = c.incr("n", "x");
    assert_eq!(bad, Err(RedisError::ParseError));
    let skipped: Option<String> =
        c.set_options("k", "w", SetOptions { nx: true, ..SetOptions::new() }).unwrap();
    assert_eq!(skipped, None);
    let _: () = c.mset(&[("a", 1i64), ("b", 2i64)]).unwrap();
    let both: Vec<Option<i64>> = c.mget(vec!["a", "zz", "b"]).unwrap();
    assert_eq!(both, vec![Some(1), None, Some(2)]);
    let gone: i64 = c.del("a").unwrap();
    assert_eq!(gone, 1);
    let there: bool = c.key_exists("a").unwrap();
    assert!(!there);
    let gone: i64 = c.unlink("b").unwrap();
    assert_eq!(gone, 1);
}

#[test]
fn commands_strings() {
    let mut client = Client::new();
    strings_via(&mut client);
}

#[test]
fn commands_bits() {
    let mut client = Client::new();
    assert_eq!(Commands::setbit(&mut client, "b", 7, true), Ok(false));
    assert_eq!(Commands::setbit(&mut client, "b", 7, true), Ok(true));
    assert_eq!(Commands::getbit(&mut client, "b", 7), Ok(true));
    assert_eq!(Commands::getbit(&mut client, "b", 6), Ok(false));
    assert_eq!(Commands::bitcount(&mut client, "b"), Ok(1));
    assert_eq!(Commands::bitcount_range(&mut client, "b", 0, 0), Ok(1));
    assert_eq!(Commands::bitcount_range(&mut client, "b", 1, 5), Ok(0));
    assert!(matches!(
        Commands::bitcount_range(&mut client, "b", usize::MAX, 0),
        Err(RedisError::InvalidArgument(_))
    ));
    let r: Result<i64, RedisError> = Commands::bit_and(&mut client, "d", "s");
    assert_eq!(r, Err(RedisError::NotSupported));
    let r: Result<i64, RedisError> = Commands::bit_or(&mut client, "d", "s");
    assert_eq!(r, Err(RedisError::NotSupported));
    let r: Result<i64, RedisError> = Commands::bit_xor(&mut client, "d", "s");
    assert_eq!(r, Err(RedisError::NotSupported));
    let r: Result<i64, RedisError> = Commands::bit_not(&mut client, "d", "s");
    assert_eq!(r, Err(RedisError::NotSupported));
}

fn containers_via<C: Commands>(c: &mut C) {
    let n: i64 = c.hset("h", "f", "1").unwrap();
    assert_eq!(n, 1);
    let n: i64 = c.hincr("h", "f", 4i64).unwrap();
    assert_eq!(n, 5);
    let v: i64 = c.hget("h", "f").unwrap();
    assert_eq!(v, 5);
    let vs: Vec<Option<String>> = c.hmget("h", vec!["f", "g"]).unwrap();
    assert_eq!(vs, vec![Some("5".to_string()), None]);
    let all: Vec<String> = c.hgetall("h").unwrap();
    assert_eq!(all, vec!["f".to_string(), "5".to_string()]);
    let ks: Vec<String> = c.hkeys("h").unwrap();
    assert_eq!(ks, vec!["f".to_string()]);
    let vs: Vec<i64> = c.hvals("h").unwrap();
    assert_eq!(vs, vec![5]);
    let n: i64 = c.hlen("h").unwrap();
    assert_eq!(n, 1);
    let yes: bool = c.hexists("h", "f").unwrap();
    assert!(yes);
    let n: i64 = c.hdel("h", "f").unwrap();
    assert_eq!(n, 1);

    let n: i64 = c.rpush("l", "b").unwrap();
    assert_eq!(n, 1);
    let n: i64 = c.lpush("l", "a").unwrap();
    assert_eq!(n, 2);
    let n: i64 = c.llen("l").unwrap();
    assert_eq!(n, 2);
    let items: Vec<String> = c.lrange("l", 0, -1).unwrap();
    assert_eq!(items, vec!["a".to_string(), "b".to_string()]);
    let item: Option<String> = c.lindex("l", 5).unwrap();
    assert_eq!(item, None);
    let item: String = c.lpop("l").unwrap();
    assert_eq!(item, "a");
    let item: String = c.rpop("l").unwrap();
    assert_eq!(item, "b");
    let item: Option<String> = c.rpop("l").unwrap();
    assert_eq!(item, None);

    let n: i64 = c.sadd("s", "m").unwrap();
    assert_eq!(n, 1);
    let n: i64 = c.sadd("s", "m").unwrap();
    assert_eq!(n, 0);
    let yes: bool = c.sismember("s", "m").unwrap();
    assert!(yes);
    let n: i64 = c.scard("s").unwrap();
    assert_eq!(n, 1);
    let ms: Vec<String> = c.smembers("s").unwrap();
    assert_eq!(ms, vec!["m".to_string()]);
    let n: i64 = c.srem("s", "zz").unwrap();
    assert_eq!(n, 0);
    let m: String = c.spop("s").unwrap();
    assert_eq!(m, "m");

    let n: i64 = c.zadd("z", 2i64, "two").unwrap();
    assert_eq!(n, 1);
    let n: i64 = c.zadd("z", "1", "one").unwrap();
    assert_eq!(n, 1);
    let bad: Result<i64, RedisError> = c.zadd("z", "1.5", "half");
    assert_eq!(bad, Err(RedisError::ParseError));
    let ms: Vec<String> = c.zrange("z", 0, -1).unwrap();
    assert_eq!(ms, vec!["one".to_string(), "two".to_string()]);
    let ms: Vec<String> = c.zrangebyscore("z", "(1", "+inf").unwrap();
    assert_eq!(ms, vec!["two".to_string()]);
    let bad: Result<Vec<String>, RedisError> = c.zrangebyscore("z", "2", "1");
    assert!(matches!(bad, Err(RedisError::InvalidArgument(_))));
    let bad: Result<Vec<String>, RedisError> = c.zrangebyscore("z", "low", "high");
    assert!(matches!(bad, Err(RedisError::InvalidArgument(_))));
    let n: i64 = c.zcount("z", "-inf", "1").unwrap();
    assert_eq!(n, 1);
    let n: i64 = c.zcard("z").unwrap();
    assert_eq!(n, 2);
    let score: Option<i64> = c.zscore("z", "two").unwrap();
    assert_eq!(score, Some(2));
    let n: i64 = c.zrem("z", "two").unwrap();
    assert_eq!(n, 1);
}

#[test]
fn commands_containers() {
    let mut client = Client::new();
    containers_via(&mut client);
}

#[test]
fn commands_lifetimes() {
    let mut client = Client::new();
    client.observe(1_000, 1_700_000_000_000_000, 0);
    client.set("k", "v").unwrap();
    assert_eq!(Commands::ttl(&mut client, "k"), Ok(IntegerReplyOrNoOp::ExistsButNotRelevant));
    assert_eq!(Commands::ttl(&mut client, "none"), Ok(IntegerReplyOrNoOp::NotExists));
    assert_eq!(Commands::pttl(&mut client, "none"), Ok(IntegerReplyOrNoOp::NotExists));
    assert_eq!(Commands::expire_time(&mut client, "k"), Ok(IntegerReplyOrNoOp::ExistsButNotRelevant));
    assert_eq!(Commands::expire(&mut client, "k", 10), Ok(true));
    assert_eq!(Commands::ttl(&mut client, "k"), Ok(IntegerReplyOrNoOp::Integer(10)));
    assert_eq!(Commands::pexpire(&mut client, "k", 1_500), Ok(true));
    assert_eq!(Commands::pttl(&mut client, "k"), Ok(IntegerReplyOrNoOp::Integer(1_500)));
    assert_eq!(Commands::expire_at(&mut client, "k", 1_700_000_030), Ok(true));
    assert_eq!(Commands::pttl(&mut client, "k"), Ok(IntegerReplyOrNoOp::Integer(30_000)));
    assert_eq!(
        Commands::expire_time(&mut client, "k"),
        Ok(IntegerReplyOrNoOp::Integer(1_700_000_030))
    );
    assert_eq!(Commands::pexpire_at(&mut client, "k", 1_700_000_000_100), Ok(true));
    assert_eq!(Commands::pttl(&mut client, "k"), Ok(IntegerReplyOrNoOp::Integer(100)));
    assert_eq!(Commands::persist(&mut client, "k"), Ok(true));
    assert_eq!(Commands::persist(&mut client, "none"), Ok(false));
    assert_eq!(Commands::expire(&mut client, "none", 10), Ok(false));
    assert!(matches!(
        Commands::expire(&mut client, "k", -10),
        Err(RedisError::InvalidArgument(_))
    ));
    assert_eq!(IntegerReplyOrNoOp::Integer(7).raw(), 7);
    assert_eq!(IntegerReplyOrNoOp::from_raw(7), IntegerReplyOrNoOp::Integer(7));
    assert_eq!(IntegerReplyOrNoOp::from_raw(-2), IntegerReplyOrNoOp::NotExists);
    assert_eq!(IntegerReplyOrNoOp::from_raw(-1), IntegerReplyOrNoOp::ExistsButNotRelevant);
    assert_eq!(IntegerReplyOrNoOp::NotExists.raw(), -2);
    assert_eq!(IntegerReplyOrNoOp::ExistsButNotRelevant.raw(), -1);
}

#[test]
fn commands_keys_and_server() {
    let mut client = Client::new();
    client.set("user:1", "a").unwrap();
    client.set("user:2", "b").unwrap();
    client.lpush("jobs", "j").unwrap();
    let mut found: Vec<String> = Commands::keys(&mut client, "user:*").unwrap();
    found.sort();
    assert_eq!(found, vec!["user:1".to_string(), "user:2".to_string()]);
    let bad: Result<Vec<String>, RedisError> = Commands::keys(&mut client, "user:[");
    assert!(matches!(bad, Err(RedisError::InvalidArgument(_))));
    let kind: String = Commands::key_type(&mut client, "jobs").unwrap();
    assert_eq!(kind, "list");
    let done: String = Commands::rename(&mut client, "user:1", "user:3").unwrap();
    assert_eq!(done, "OK");
    let moved: i64 = Commands::rename_nx(&mut client, "user:3", "user:2").unwrap();
    assert_eq!(moved, 0);
    let options: CopyOptions<i64> = CopyOptions { db: None, replace: false };
    let copied: i64 = Commands::copy(&mut client, "user:2", "user:9", options).unwrap();
    assert_eq!(copied, 1);
    let pong: String = Commands::ping(&mut client).unwrap();
    assert_eq!(pong, "PONG");
    let said: Vec<u8> = Commands::echo(&mut client, vec![1u8, 2]).unwrap();
    assert_eq!(said, vec![1u8, 2]);
    let size: i64 = Commands::dbsize(&mut client).unwrap();
    assert_eq!(size, 4);
    client.observe(0, 1_700_000_000_000_250, 0);
    let started: i64 = Commands::lastsave(&mut client).unwrap();
    assert_eq!(started, 1_700_000_000);
    let now: Vec<i64> = Commands::time(&mut client).unwrap();
    assert_eq!(now, vec![1_700_000_000, 250]);
    let _: () = Commands::flushdb(&mut client).unwrap();
    let size: i64 = Commands::dbsize(&mut client).unwrap();
    assert_eq!(size, 0);
    client.set("k", "v").unwrap();
    let done: Value = Commands::flushall(&mut client).unwrap();
    assert_eq!(done, Value::Okay);
    assert_eq!(client.dbsize(), Ok(0));
}
