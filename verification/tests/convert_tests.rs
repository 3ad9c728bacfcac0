use not_redis::convert::{value_bytes, value_to_vec, values_to_vecs, FromRedisValue, ToRedisArgs};
use not_redis::error::RedisError;
use not_redis::glob::{glob_match, is_valid_pattern};
use not_redis::numbers::{format_i64, parse_i64};
use not_redis::text::{eq_ignore_ascii_case, str_eq};
use not_redis::value::Value;

#[test]
fn numbers_format_and_parse() {
    assert_eq!(format_i64(0), b"0".to_vec());
    assert_eq!(format_i64(42), b"42".to_vec());
    assert_eq!(format_i64(-7), b"-7".to_vec());
    assert_eq!(format_i64(i64::MAX), b"9223372036854775807".to_vec());
    assert_eq!(format_i64(i64::MIN), b"-9223372036854775808".to_vec());
    assert_eq!(parse_i64(b"0"), Some(0));
    assert_eq!(parse_i64(b"-0"), Some(0));
    assert_eq!(parse_i64(b"+15"), Some(15));
    assert_eq!(parse_i64(b"007"), Some(7));
    assert_eq!(parse_i64(b"9223372036854775807"), Some(i64::MAX));
    assert_eq!(parse_i64(b"9223372036854775808"), None);
    assert_eq!(parse_i64(b"-9223372036854775808"), Some(i64::MIN));
    assert_eq!(parse_i64(b"-9223372036854775809"), None);
    assert_eq!(parse_i64(b"99999999999999999999999999"), None);
    assert_eq!(parse_i64(b""), None);
    assert_eq!(parse_i64(b"-"), None);
    assert_eq!(parse_i64(b"+"), None);
    assert_eq!(parse_i64(b"12a"), None);
    assert_eq!(parse_i64(b" 12"), None);
    assert_eq!(parse_i64(b"1.5"), None);
}

#[test]
fn numbers_round_trip_on_samples() {
    for n in [0i64, 1, -1, 9, 10, 99, 100, -100, 123_456_789, i64::MAX, i64::MIN] {
        assert_eq!(parse_i64(&format_i64(n)), Some(n));
    }
}

#[test]
fn arguments_of_primitives() {
    assert_eq!("hi".to_redis_args(), vec![Value::String(b"hi".to_vec())]);
    assert_eq!(String::from("hi").to_redis_args(), vec![Value::String(b"hi".to_vec())]);
    assert_eq!(vec![1u8, 2].to_redis_args(), vec![Value::String(vec![1, 2])]);
    let slice: &[u8] = &[9u8];
    assert_eq!(slice.to_redis_args(), vec![Value::String(vec![9])]);
    assert_eq!(5i64.to_redis_args(), vec![Value::Int(5)]);
    assert_eq!(u64::MAX.to_redis_args(), vec![Value::Int(-1)]);
    assert_eq!(7usize.to_redis_args(), vec![Value::Int(7)]);
    assert_eq!((-7isize).to_redis_args(), vec![Value::Int(-7)]);
    assert_eq!(true.to_redis_args(), vec![Value::Bool(true)]);
    assert_eq!(Some(3i64).to_redis_args(), vec![Value::Int(3)]);
    assert_eq!(None::<i64>.to_redis_args(), vec![Value::Null]);
    assert_eq!(
        vec!["a", "b"].to_redis_args(),
        vec![Value::String(b"a".to_vec()), Value::String(b"b".to_vec())]
    );
    assert_eq!(().to_redis_args(), Vec::<Value>::new());
    assert_eq!(("k", 1i64).to_redis_args(), vec![Value::String(b"k".to_vec()), Value::Int(1)]);
    assert_eq!(
        ("a", true, 2i64, "b").to_redis_args(),
        vec![
            Value::String(b"a".to_vec()),
            Value::Bool(true),
            Value::Int(2),
            Value::String(b"b".to_vec())
        ]
    );
    assert_eq!((1i64, 2i64, 3i64, 4i64, 5i64, 6i64, 7i64, 8i64).to_redis_args().len(), 8);
}

#[test]
fn bytes_of_arguments() {
    assert_eq!(value_to_vec(&"key"), b"key".to_vec());
    assert_eq!(value_to_vec(&42i64), b"42".to_vec());
    assert_eq!(value_to_vec(&-1i64), b"-1".to_vec());
    assert_eq!(value_to_vec(&true), b"1".to_vec());
    assert_eq!(value_to_vec(&false), b"0".to_vec());
    assert_eq!(value_to_vec(&None::<i64>), Vec::<u8>::new());
    assert_eq!(value_to_vec(&()), Vec::<u8>::new());
    assert_eq!(value_to_vec(&(None::<i64>, "second")), b"second".to_vec());
    assert_eq!(values_to_vecs(&vec!["a", "b"]), vec![b"a".to_vec(), b"b".to_vec()]);
    assert_eq!(values_to_vecs(&("a", None::<i64>, 3i64)), vec![b"a".to_vec(), b"3".to_vec()]);
    assert_eq!(value_bytes(&Value::Null), None);
    assert_eq!(value_bytes(&Value::Okay), None);
    assert_eq!(value_bytes(&Value::Int(10)), Some(b"10".to_vec()));
}

#[test]
fn replies_read_as_text() {
    assert_eq!(String::from_redis_value(Value::String(b"abc".to_vec())), Ok("abc".to_string()));
    assert_eq!(String::from_redis_value(Value::Int(-12)), Ok("-12".to_string()));
    assert_eq!(String::from_redis_value(Value::Null), Ok(String::new()));
    assert_eq!(String::from_redis_value(Value::Okay), Ok("OK".to_string()));
    assert_eq!(String::from_redis_value(Value::Bool(true)), Ok("true".to_string()));
    assert_eq!(String::from_redis_value(Value::Bool(false)), Ok("false".to_string()));
    assert_eq!(
        String::from_redis_value(Value::String(vec![0xff, 0xfe])),
        Err(RedisError::ParseError)
    );
    assert_eq!(String::from_redis_value(Value::Array(Vec::new())), Err(RedisError::ParseError));
}

#[test]
fn replies_read_as_numbers_and_truth() {
    assert_eq!(i64::from_redis_value(Value::Int(5)), Ok(5));
    assert_eq!(i64::from_redis_value(Value::String(b"-17".to_vec())), Ok(-17));
    assert_eq!(i64::from_redis_value(Value::String(b"x".to_vec())), Err(RedisError::ParseError));
    assert_eq!(i64::from_redis_value(Value::Bool(true)), Ok(1));
    assert_eq!(i64::from_redis_value(Value::Null), Err(RedisError::ParseError));
    assert_eq!(u64::from_redis_value(Value::Int(-1)), Ok(u64::MAX));
    assert_eq!(usize::from_redis_value(Value::Int(9)), Ok(9));
    assert_eq!(isize::from_redis_value(Value::Int(-9)), Ok(-9));
    assert_eq!(bool::from_redis_value(Value::Bool(false)), Ok(false));
    assert_eq!(bool::from_redis_value(Value::Int(0)), Ok(false));
    assert_eq!(bool::from_redis_value(Value::Int(-3)), Ok(true));
    assert_eq!(bool::from_redis_value(Value::String(b"1".to_vec())), Ok(true));
    assert_eq!(bool::from_redis_value(Value::String(b"TrUe".to_vec())), Ok(true));
    assert_eq!(bool::from_redis_value(Value::String(b"0".to_vec())), Ok(false));
    assert_eq!(bool::from_redis_value(Value::String(b"yes".to_vec())), Ok(false));
    assert_eq!(bool::from_redis_value(Value::String(vec![0xff])), Err(RedisError::ParseError));
    assert_eq!(bool::from_redis_value(Value::Null), Ok(false));
    assert_eq!(bool::from_redis_value(Value::Okay), Err(RedisError::ParseError));
    assert_eq!(<()>::from_redis_value(Value::Null), Ok(()));
    assert_eq!(<()>::from_redis_value(Value::Okay), Ok(()));
    assert_eq!(<()>::from_redis_value(Value::Int(1)), Err(RedisError::ParseError));
}

#[test]
fn replies_read_as_containers() {
    assert_eq!(Vec::<u8>::from_redis_value(Value::String(vec![1, 2])), Ok(vec![1u8, 2]));
    assert_eq!(Vec::<u8>::from_redis_value(Value::Int(1)), Err(RedisError::ParseError));
    assert_eq!(Option::<i64>::from_redis_value(Value::Null), Ok(None));
    assert_eq!(Option::<i64>::from_redis_value(Value::Int(4)), Ok(Some(4)));
    assert_eq!(Option::<i64>::from_redis_value(Value::Okay), Err(RedisError::ParseError));
    let array = Value::Array(vec![Value::Int(1), Value::String(b"2".to_vec()), Value::Bool(true)]);
    assert_eq!(Vec::<i64>::from_redis_value(array), Ok(vec![1, 2, 1]));
    let bad = Value::Array(vec![Value::Int(1), Value::Null]);
    assert_eq!(Vec::<i64>::from_redis_value(bad), Err(RedisError::ParseError));
    assert_eq!(Vec::<i64>::from_redis_value(Value::Null), Ok(Vec::new()));
    assert_eq!(Vec::<i64>::from_redis_value(Value::Int(1)), Err(RedisError::ParseError));
    let nested = Value::Array(vec![Value::Array(vec![Value::Int(1)]), Value::Null]);
    assert_eq!(Vec::<Vec<i64>>::from_redis_value(nested), Ok(vec![vec![1], vec![]]));
    assert_eq!(Value::from_redis_value(Value::Okay), Ok(Value::Okay));
}

#[test]
fn round_trip_of_primitives_on_samples() {
    for n in [0i64, -1, i64::MIN, i64::MAX] {
        let mut args = n.to_redis_args();
        assert_eq!(i64::from_redis_value(args.remove(0)), Ok(n));
    }
    for n in [0u64, 1, u64::MAX, 1 << 63] {
        let mut args = n.to_redis_args();
        assert_eq!(u64::from_redis_value(args.remove(0)), Ok(n));
    }
    for b in [true, false] {
        let mut args = b.to_redis_args();
        assert_eq!(bool::from_redis_value(args.remove(0)), Ok(b));
    }
    let text = String::from("héllo wörld");
    let mut args = text.to_redis_args();
    assert_eq!(String::from_redis_value(args.remove(0)), Ok(text));
    let bytes = vec![0u8, 159, 146, 150];
    let mut args = bytes.to_redis_args();
    assert_eq!(Vec::<u8>::from_redis_value(args.remove(0)), Ok(bytes));
    let list = vec![3i64, -4, 5];
    assert_eq!(Vec::<i64>::from_redis_value(Value::Array(list.to_redis_args())), Ok(list));
    let some = Some(9i64);
    let mut args = some.to_redis_args();
    assert_eq!(Option::<i64>::from_redis_value(args.remove(0)), Ok(some));
    let none: Option<i64> = None;
    let mut args = none.to_redis_args();
    assert_eq!(Option::<i64>::from_redis_value(args.remove(0)), Ok(none));
}

#[test]
fn values_from_plain_types() {
    assert_eq!(Value::from(String::from("s")), Value::String(b"s".to_vec()));
    assert_eq!(Value::from("s"), Value::String(b"s".to_vec()));
    assert_eq!(Value::from(vec![1u8]), Value::String(vec![1]));
    assert_eq!(Value::from(3i64), Value::Int(3));
    assert_eq!(Value::from(u64::MAX), Value::Int(-1));
    assert_eq!(Value::from(true), Value::Bool(true));
    assert_eq!(Value::from(()), Value::Null);
    assert_eq!(Value::from(vec![Value::Okay]), Value::Array(vec![Value::Okay]));
    assert_eq!(
        Value::strings(vec![b"a".to_vec(), b"b".to_vec()]),
        Value::Array(vec![Value::String(b"a".to_vec()), Value::String(b"b".to_vec())])
    );
    assert_eq!(Value::array(Vec::new()), Value::Array(Vec::new()));
}

#[test]
fn text_helpers() {
    assert!(str_eq("abc", "abc"));
    assert!(!str_eq("abc", "abd"));
    assert!(str_eq("", ""));
    assert!(eq_ignore_ascii_case(b"TRUE", b"true"));
    assert!(eq_ignore_ascii_case(b"a-Z", b"A-z"));
    assert!(!eq_ignore_ascii_case(b"true", b"tru"));
    assert!(!eq_ignore_ascii_case(b"[", b"{"));
}

#[test]
fn errors_have_messages_and_kinds() {
    assert_eq!(RedisError::ParseError.message(), "Cannot parse value");
    assert_eq!(RedisError::NoSuchKey("k".to_string()).message(), "No such key: k");
    assert_eq!(RedisError::WrongType.message(), "Wrong type operation");
    assert_eq!(RedisError::NotSupported.message(), "Not supported command");
    assert_eq!(RedisError::CommandNotFound("X".to_string()).message(), "Command not found: X");
    assert_eq!(RedisError::InvalidArgument("a".to_string()).message(), "Invalid argument: a");
    assert_eq!(RedisError::IoError("e".to_string()).message(), "IO error: e");
    assert_eq!(RedisError::OutOfMemory.message(), "Out of memory");
    assert_eq!(RedisError::Unknown("u".to_string()).message(), "Unknown error: u");
    assert_eq!(RedisError::WrongType.kind(), not_redis::ops::ErrorKind::WrongType);
    assert_eq!(
        RedisError::InvalidArgument(String::new()).kind(),
        not_redis::ops::ErrorKind::InvalidArgument
    );
}

#[test]
fn glob_star_question_and_literals() {
    assert!(glob_match(b"*", b""));
    assert!(glob_match(b"*", b"anything"));
    assert!(glob_match(b"h?llo", b"hello"));
    assert!(!glob_match(b"h?llo", b"hllo"));
    assert!(glob_match(b"h*llo", b"hllo"));
    assert!(glob_match(b"h*llo", b"heeeello"));
    assert!(!glob_match(b"h*llo", b"heeeellox"));
    assert!(glob_match(b"user:*:name", b"user:42:name"));
    assert!(!glob_match(b"user:*:name", b"user:42:age"));
    assert!(glob_match(b"", b""));
    assert!(!glob_match(b"", b"a"));
    assert!(glob_match(b"a*b*c", b"aXXbYYc"));
    assert!(glob_match(b"**", b"x"));
    assert!(glob_match(b"\xff?", b"\xff\x00"));
}

#[test]
fn glob_sets_ranges_and_escapes() {
    assert!(glob_match(b"h[ae]llo", b"hello"));
    assert!(glob_match(b"h[ae]llo", b"hallo"));
    assert!(!glob_match(b"h[ae]llo", b"hillo"));
    assert!(glob_match(b"h[^e]llo", b"hallo"));
    assert!(!glob_match(b"h[^e]llo", b"hello"));
    assert!(glob_match(b"h[a-c]llo", b"hbllo"));
    assert!(!glob_match(b"h[a-c]llo", b"hdllo"));
    assert!(glob_match(b"h[c-a]llo", b"hbllo"));
    assert!(glob_match(b"k[0-9][0-9]", b"k42"));
    assert!(glob_match(b"a\\*b", b"a*b"));
    assert!(!glob_match(b"a\\*b", b"aXb"));
    assert!(glob_match(b"a[\\]]b", b"a]b"));
    assert!(glob_match(b"a\\?", b"a?"));
    assert!(!glob_match(b"[abc", b"a"));
    assert!(!glob_match(b"abc\\", b"abc\\"));
}

#[test]
fn glob_pattern_validity() {
    assert!(is_valid_pattern(b""));
    assert!(is_valid_pattern(b"*"));
    assert!(is_valid_pattern(b"a[b-d]?\\*"));
    assert!(is_valid_pattern(b"[^x]"));
    assert!(is_valid_pattern(b"[\\]]"));
    assert!(!is_valid_pattern(b"[abc"));
    assert!(!is_valid_pattern(b"abc\\"));
    assert!(!is_valid_pattern(b"[a\\"));
    assert!(!is_valid_pattern(b"x[^"));
}
