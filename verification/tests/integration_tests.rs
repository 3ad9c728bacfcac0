use not_redis::{Client, RedisResult};

fn setup_client() -> Client {
    let mut client = Client::new();
    client.start();
    client
}

fn cleanup(client: &mut Client) {
    let _ = client.flushdb();
}

#[test]
fn test_set_and_get() {
    let mut client = setup_client();
    client.set("key1", "value1").unwrap();
    let result: String = client.get("key1").unwrap();
    assert_eq!(result, "value1");
    cleanup(&mut client);
}

#[test]
fn test_set_overwrite() {
    let mut client = setup_client();
    client.set("key1", "value1").unwrap();
    client.set("key1", "value2").unwrap();
    let result: String = client.get("key1").unwrap();
    assert_eq!(result, "value2");
    cleanup(&mut client);
}

#[test]
fn test_get_nonexistent() {
    let mut client = setup_client();
    let result: String = client.get("nonexistent").unwrap();
    assert_eq!(result, "");
    cleanup(&mut client);
}

#[test]
fn test_del_single() {
    let mut client = setup_client();
    client.set("key1", "value1").unwrap();
    let deleted: i64 = client.del("key1").unwrap();
    assert_eq!(deleted, 1);
    let exists: bool = client.key_exists("key1").unwrap();
    assert!(!exists);
    cleanup(&mut client);
}

#[test]
fn test_del_nonexistent() {
    let mut client = setup_client();
    let deleted: i64 = client.del("nonexistent").unwrap();
    assert_eq!(deleted, 0);
    cleanup(&mut client);
}

#[test]
fn test_exists_true() {
    let mut client = setup_client();
    client.set("key1", "value1").unwrap();
    let exists: bool = client.key_exists("key1").unwrap();
    assert!(exists);
    cleanup(&mut client);
}

#[test]
fn test_exists_false() {
    let mut client = setup_client();
    let exists: bool = client.key_exists("nonexistent").unwrap();
    assert!(!exists);
    cleanup(&mut client);
}

#[test]
fn test_expire_basic() {
    let mut client = setup_client();
    client.set("key1", "value1").unwrap();
    let result: bool = client.expire("key1", 60).unwrap();
    assert!(result);
    let ttl: i64 = client.ttl("key1").unwrap();
    assert!(ttl > 0 && ttl <= 60);
    cleanup(&mut client);
}

#[test]
fn test_ttl_positive() {
    let mut client = setup_client();
    client.set("key1", "value1").unwrap();
    client.expire("key1", 120).unwrap();
    let ttl: i64 = client.ttl("key1").unwrap();
    assert!(ttl > 0 && ttl <= 120);
    cleanup(&mut client);
}

#[test]
fn test_ttl_nonexistent() {
    let mut client = setup_client();
    let ttl: i64 = client.ttl("nonexistent").unwrap();
    assert_eq!(ttl, -2);
    cleanup(&mut client);
}

#[test]
fn test_persist_removes_expiry() {
    let mut client = setup_client();
    client.set("key1", "value1").unwrap();
    client.expire("key1", 60).unwrap();
    let persisted: bool = client.persist("key1");
    assert!(persisted);
    let ttl: i64 = client.ttl("key1").unwrap();
    assert_eq!(ttl, -1); // -1 means no expiry
    cleanup(&mut client);
}

#[test]
fn test_type_conversion_string() {
    let mut client = setup_client();
    let test_str = "hello world";
    client.set("key1", test_str).unwrap();
    let result: String = client.get("key1").unwrap();
    assert_eq!(result, test_str);
    cleanup(&mut client);
}

#[test]
fn test_type_conversion_i64() {
    let mut client = setup_client();
    let test_num: i64 = 42;
    client.set("key1", test_num).unwrap();
    let result: i64 = client.get("key1").unwrap();
    assert_eq!(result, 42);
    cleanup(&mut client);
}

#[test]
fn test_type_conversion_bool() {
    let mut client = setup_client();
    client.set("key1", true).unwrap();
    let result: bool = client.get("key1").unwrap();
    assert!(result);
    cleanup(&mut client);
}

#[test]
fn test_hset_new_field() {
    let mut client = setup_client();
    let result: i64 = client.hset("myhash", "field1", "value1").unwrap();
    assert_eq!(result, 1);
    let val: String = client.hget("myhash", "field1").unwrap();
    assert_eq!(val, "value1");
    cleanup(&mut client);
}

#[test]
fn test_hset_existing_field() {
    let mut client = setup_client();
    client.hset("myhash", "field1", "value1").unwrap();
    let result: i64 = client.hset("myhash", "field1", "value2").unwrap();
    assert_eq!(result, 0);
    let val: String = client.hget("myhash", "field1").unwrap();
    assert_eq!(val, "value2");
    cleanup(&mut client);
}

#[test]
fn test_hset_creates_hash() {
    let mut client = setup_client();
    let result: i64 = client.hset("newkey", "field1", "value1").unwrap();
    assert_eq!(result, 1);
    let exists: bool = client.key_exists("newkey").unwrap();
    assert!(exists);
    cleanup(&mut client);
}

#[test]
fn test_hget_existing() {
    let mut client = setup_client();
    client.hset("myhash", "field1", "value1").unwrap();
    client.hset("myhash", "field2", "value2").unwrap();
    let val: String = client.hget("myhash", "field1").unwrap();
    assert_eq!(val, "value1");
    cleanup(&mut client);
}

#[test]
fn test_hget_nonexistent() {
    let mut client = setup_client();
    client.hset("myhash", "field1", "value1").unwrap();
    let val: String = client.hget("myhash", "nonexistent").unwrap();
    assert_eq!(val, "");
    cleanup(&mut client);
}

#[test]
fn test_hgetall_multiple() {
    let mut client = setup_client();
    client.hset("myhash", "field1", "value1").unwrap();
    client.hset("myhash", "field2", "value2").unwrap();
    client.hset("myhash", "field3", "value3").unwrap();
    let result: Vec<String> = client.hgetall("myhash").unwrap();
    assert_eq!(result.len(), 6);
    cleanup(&mut client);
}

#[test]
fn test_hgetall_empty() {
    let mut client = setup_client();
    client.set("stringkey", "value").unwrap();
    let result: Vec<String> = client.hgetall("nonexistent").unwrap();
    assert_eq!(result.len(), 0);
    cleanup(&mut client);
}

#[test]
fn test_hdel_existing() {
    let mut client = setup_client();
    client.hset("myhash", "field1", "value1").unwrap();
    let result: i64 = client.hdel("myhash", "field1").unwrap();
    assert_eq!(result, 1);
    let val: String = client.hget("myhash", "field1").unwrap();
    assert_eq!(val, "");
    cleanup(&mut client);
}

#[test]
fn test_hdel_nonexistent() {
    let mut client = setup_client();
    client.hset("myhash", "field1", "value1").unwrap();
    let result: i64 = client.hdel("myhash", "nonexistent").unwrap();
    assert_eq!(result, 0);
    cleanup(&mut client);
}

#[test]
fn integration_tests_test_wrong_type_on_string_key() {
    let mut client = setup_client();
    client.set("mykey", "stringvalue").unwrap();
    let result = client.hset("mykey", "field", "value");
    assert!(result.is_err());
    cleanup(&mut client);
}

#[test]
fn test_lpush_new() {
    let mut client = setup_client();
    let len: i64 = client.lpush("mylist", "first").unwrap();
    assert_eq!(len, 1);
    cleanup(&mut client);
}

#[test]
fn test_lpush_multiple() {
    let mut client = setup_client();
    client.lpush("mylist", "a").unwrap();
    client.lpush("mylist", "b").unwrap();
    client.lpush("mylist", "c").unwrap();
    let len: i64 = client.llen("mylist").unwrap();
    assert_eq!(len, 3);
    cleanup(&mut client);
}

#[test]
fn test_rpush_new() {
    let mut client = setup_client();
    let len: i64 = client.rpush("mylist", "first").unwrap();
    assert_eq!(len, 1);
    cleanup(&mut client);
}

#[test]
fn test_llen_basic() {
    let mut client = setup_client();
    client.lpush("mylist", "a").unwrap();
    client.lpush("mylist", "b").unwrap();
    let len: i64 = client.llen("mylist").unwrap();
    assert_eq!(len, 2);
    cleanup(&mut client);
}

#[test]
fn test_llen_empty() {
    let mut client = setup_client();
    let len: i64 = client.llen("nonexistent").unwrap();
    assert_eq!(len, 0);
    cleanup(&mut client);
}

#[test]
fn integration_tests_test_wrong_type_on_string_key_list() {
    let mut client = setup_client();
    client.set("mykey", "stringvalue").unwrap();
    let result = client.llen("mykey");
    assert!(result.is_err());
    cleanup(&mut client);
}

#[test]
fn test_sadd_new() {
    let mut client = setup_client();
    let result: i64 = client.sadd("myset", "member1").unwrap();
    assert_eq!(result, 1);
    cleanup(&mut client);
}

#[test]
fn test_sadd_duplicate() {
    let mut client = setup_client();
    client.sadd("myset", "member1").unwrap();
    let result: i64 = client.sadd("myset", "member1").unwrap();
    assert_eq!(result, 0);
    cleanup(&mut client);
}

#[test]
fn test_smembers_basic() {
    let mut client = setup_client();
    client.sadd("myset", "member1").unwrap();
    client.sadd("myset", "member2").unwrap();
    client.sadd("myset", "member3").unwrap();
    let members: Vec<String> = client.smembers("myset").unwrap();
    assert_eq!(members.len(), 3);
    cleanup(&mut client);
}

#[test]
fn test_smembers_empty() {
    let mut client = setup_client();
    let members: Vec<String> = client.smembers("nonexistent").unwrap();
    assert_eq!(members.len(), 0);
    cleanup(&mut client);
}

#[test]
fn integration_tests_test_wrong_type_on_string_key_set() {
    let mut client = setup_client();
    client.set("mykey", "stringvalue").unwrap();
    let result = client.sadd("mykey", "member");
    assert!(result.is_err());
    cleanup(&mut client);
}

#[test]
fn test_ping() {
    let mut client = setup_client();
    let result: String = client.ping().unwrap();
    assert_eq!(result, "PONG");
    cleanup(&mut client);
}

#[test]
fn test_echo() {
    let mut client = setup_client();
    let result: String = client.echo("hello world").unwrap();
    assert_eq!(result, "hello world");
    cleanup(&mut client);
}

#[test]
fn test_dbsize_empty() {
    let mut client = setup_client();
    let size: i64 = client.dbsize().unwrap();
    assert_eq!(size, 0);
    cleanup(&mut client);
}

#[test]
fn test_dbsize_after_ops() {
    let mut client = setup_client();
    client.set("key1", "value1").unwrap();
    client.set("key2", "value2").unwrap();
    client.hset("hash1", "field1", "val1").unwrap();
    let size: i64 = client.dbsize().unwrap();
    assert_eq!(size, 3);
    cleanup(&mut client);
}

#[test]
fn test_flushdb() {
    let mut client = setup_client();
    client.set("key1", "value1").unwrap();
    client.set("key2", "value2").unwrap();
    let _: String = client.flushdb().unwrap();
    let size: i64 = client.dbsize().unwrap();
    assert_eq!(size, 0);
    cleanup(&mut client);
}

#[test]
fn test_expire_sets_ttl() {
    let mut client = setup_client();
    client.set("key1", "value1").unwrap();
    client.expire("key1", 30).unwrap();
    let ttl: i64 = client.ttl("key1").unwrap();
    assert!(ttl > 0 && ttl <= 30);
    cleanup(&mut client);
}

#[test]
fn test_persist_preserves_key() {
    let mut client = setup_client();
    client.set("key1", "value1").unwrap();
    client.expire("key1", 10).unwrap();
    let persisted = client.persist("key1");
    assert!(persisted);
    let ttl: i64 = client.ttl("key1").unwrap();
    assert_eq!(ttl, -1); // -1 means no expiry
    cleanup(&mut client);
}

#[test]
fn test_ttl_mixed_expiry() {
    let mut client = setup_client();
    client.set("key1", "value1").unwrap();
    client.set("key2", "value2").unwrap();
    client.expire("key1", 60).unwrap();
    let ttl1: i64 = client.ttl("key1").unwrap();
    let ttl2: i64 = client.ttl("key2").unwrap();
    assert!(ttl1 > 0 && ttl1 <= 60);
    assert_eq!(ttl2, -1); // key2 has no expiry, so -1
    cleanup(&mut client);
}

#[test]
fn test_empty_string_key() {
    let mut client = setup_client();
    client.set("", "value1").unwrap();
    let result: String = client.get("").unwrap();
    assert_eq!(result, "value1");
    let deleted: i64 = client.del("").unwrap();
    assert_eq!(deleted, 1);
    cleanup(&mut client);
}

#[test]
fn test_empty_string_value() {
    let mut client = setup_client();
    client.set("key1", "").unwrap();
    let result: String = client.get("key1").unwrap();
    assert_eq!(result, "");
    cleanup(&mut client);
}

#[test]
fn test_unicode_strings() {
    let mut client = setup_client();
    let unicode_str = "你好世界 🌍 Привет мир";
    client.set("key1", unicode_str).unwrap();
    let result: String = client.get("key1").unwrap();
    assert_eq!(result, unicode_str);
    cleanup(&mut client);
}

#[test]
fn test_binary_data() {
    let mut client = setup_client();
    let binary: Vec<u8> = vec![0x00, 0xFF, 0x42, 0x13, 0x37];
    client.set("key1", binary.clone()).unwrap();
    let result: Vec<u8> = client.get("key1").unwrap();
    assert_eq!(result, binary);
    cleanup(&mut client);
}

#[test]
fn test_special_characters() {
    let mut client = setup_client();
    let special = "key:value\nwith\ttabs\"and\"quotes\\backslashes";
    client.set("key1", special).unwrap();
    let result: String = client.get("key1").unwrap();
    assert_eq!(result, special);
    cleanup(&mut client);
}

#[test]
fn test_whitespace_values() {
    let mut client = setup_client();
    let whitespace = "   spaces   \n\tnewlines\t ";
    client.set("key1", whitespace).unwrap();
    let result: String = client.get("key1").unwrap();
    assert_eq!(result, whitespace);
    cleanup(&mut client);
}

#[test]
fn test_large_value() {
    let mut client = setup_client();
    let large = "x".repeat(10000);
    client.set("key1", large).unwrap();
    let result: String = client.get("key1").unwrap();
    assert_eq!(result.len(), 10000);
    cleanup(&mut client);
}

#[test]
fn test_numeric_strings() {
    let mut client = setup_client();
    client.set("key1", "12345").unwrap();
    let result: String = client.get("key1").unwrap();
    assert_eq!(result, "12345");
    cleanup(&mut client);
}

#[test]
fn test_get_wrong_type() {
    let mut client = setup_client();
    client.lpush("mylist", "item").unwrap();
    let result: RedisResult<String> = client.get("mylist");
    assert!(result.is_err());
    cleanup(&mut client);
}

#[test]
fn test_hget_wrong_type() {
    let mut client = setup_client();
    client.set("mykey", "stringvalue").unwrap();
    let result: RedisResult<String> = client.hget("mykey", "field");
    assert!(result.is_err());
    cleanup(&mut client);
}

#[test]
fn test_llen_wrong_type() {
    let mut client = setup_client();
    client.set("mykey", "value").unwrap();
    let result: RedisResult<i64> = client.llen("mykey");
    assert!(result.is_err());
    cleanup(&mut client);
}

#[test]
fn test_sadd_wrong_type() {
    let mut client = setup_client();
    client.set("mykey", "value").unwrap();
    let result: RedisResult<i64> = client.sadd("mykey", "member");
    assert!(result.is_err());
    cleanup(&mut client);
}

#[test]
fn test_wrong_type_hset_on_list() {
    let mut client = setup_client();
    client.lpush("mylist", "item").unwrap();
    let result: RedisResult<i64> = client.hset("mylist", "field", "value");
    assert!(result.is_err());
    cleanup(&mut client);
}
