use not_redis::byte_set::ByteSet;
use not_redis::bytes::{bytes_eq, bytes_lt, copy_bytes};
use not_redis::field_map::FieldMap;
use not_redis::range::{resolve_position, resolve_span};
use not_redis::sorted_set::{ScoreBound, SortedSet};
use not_redis::types::{Kind, RedisData, StoredValue};
use std::collections::VecDeque;

#[test]
fn bytes_helpers_compare_and_copy() {
    assert!(bytes_eq(b"abc", b"abc"));
    assert!(!bytes_eq(b"abc", b"abd"));
    assert!(!bytes_eq(b"abc", b"ab"));
    assert!(bytes_lt(b"ab", b"abc"));
    assert!(bytes_lt(b"abc", b"abd"));
    assert!(!bytes_lt(b"abc", b"abc"));
    assert!(!bytes_lt(b"b", b"abc"));
    assert!(bytes_lt(b"", b"a"));
    assert_eq!(copy_bytes(&[0u8, 255, 7]), vec![0u8, 255, 7]);
}

#[test]
fn byte_set_keeps_members_once_in_insertion_order() {
    let mut set = ByteSet::new();
    assert!(set.insert(b"b".to_vec()));
    assert!(set.insert(b"a".to_vec()));
    assert!(!set.insert(b"b".to_vec()));
    assert_eq!(set.len(), 2);
    assert_eq!(set.members(), vec![b"b".to_vec(), b"a".to_vec()]);
    assert!(set.contains(b"a"));
    assert!(!set.contains(b"c"));
    assert!(set.remove(b"b"));
    assert!(!set.remove(b"b"));
    assert_eq!(set.members(), vec![b"a".to_vec()]);
    assert_eq!(set.pop(), Some(b"a".to_vec()));
    assert_eq!(set.pop(), None);
}

#[test]
fn field_map_replaces_in_place() {
    let mut map = FieldMap::new();
    assert!(map.insert(b"f1".to_vec(), b"v1".to_vec()));
    assert!(map.insert(b"f2".to_vec(), b"v2".to_vec()));
    assert!(!map.insert(b"f1".to_vec(), b"v3".to_vec()));
    assert_eq!(map.len(), 2);
    assert_eq!(map.get(b"f1"), Some(b"v3".to_vec()));
    assert_eq!(map.get(b"nope"), None);
    assert_eq!(
        map.pairs(),
        vec![(b"f1".to_vec(), b"v3".to_vec()), (b"f2".to_vec(), b"v2".to_vec())]
    );
    assert!(map.remove(b"f1"));
    assert!(!map.remove(b"f1"));
    assert!(!map.contains(b"f1"));
    assert!(map.contains(b"f2"));
}

#[test]
fn sorted_set_orders_by_score_then_member() {
    let mut set = SortedSet::new();
    assert!(set.insert(b"c".to_vec(), 2));
    assert!(set.insert(b"b".to_vec(), 1));
    assert!(set.insert(b"a".to_vec(), 2));
    assert!(set.insert(b"d".to_vec(), -5));
    assert_eq!(
        set.range(0, -1),
        vec![b"d".to_vec(), b"b".to_vec(), b"a".to_vec(), b"c".to_vec()]
    );
    assert!(!set.insert(b"d".to_vec(), 10));
    assert_eq!(set.len(), 4);
    assert_eq!(
        set.range(0, -1),
        vec![b"b".to_vec(), b"a".to_vec(), b"c".to_vec(), b"d".to_vec()]
    );
    assert_eq!(set.score(b"d"), Some(10));
    assert_eq!(set.score(b"zz"), None);
    assert_eq!(set.range(-2, -1), vec![b"c".to_vec(), b"d".to_vec()]);
    assert_eq!(set.range(1, 1), vec![b"a".to_vec()]);
    assert_eq!(set.range(3, 1), Vec::<Vec<u8>>::new());
    assert!(set.remove(b"a"));
    assert!(!set.remove(b"a"));
    assert_eq!(
        set.entries(),
        vec![(1, b"b".to_vec()), (2, b"c".to_vec()), (10, b"d".to_vec())]
    );
}

#[test]
fn sorted_set_score_ranges() {
    let mut set = SortedSet::new();
    set.insert(b"one".to_vec(), 1);
    set.insert(b"two".to_vec(), 2);
    set.insert(b"three".to_vec(), 3);
    let all = set.range_by_score(&ScoreBound::NegInf, &ScoreBound::PosInf);
    assert_eq!(all, vec![b"one".to_vec(), b"two".to_vec(), b"three".to_vec()]);
    let some = set.range_by_score(&ScoreBound::Excl(1), &ScoreBound::Incl(3));
    assert_eq!(some, vec![b"two".to_vec(), b"three".to_vec()]);
    assert_eq!(set.count_by_score(&ScoreBound::Incl(1), &ScoreBound::Excl(3)), 2);
    assert_eq!(set.count_by_score(&ScoreBound::PosInf, &ScoreBound::PosInf), 0);
    assert!(ScoreBound::Incl(5).is_above(&ScoreBound::Incl(4)));
    assert!(!ScoreBound::Incl(4).is_above(&ScoreBound::Excl(4)));
    assert!(ScoreBound::PosInf.is_above(&ScoreBound::Incl(i64::MAX)));
    assert!(!ScoreBound::NegInf.is_above(&ScoreBound::Incl(i64::MIN)));
    assert!(ScoreBound::Incl(i64::MIN).is_above(&ScoreBound::NegInf));
}

#[test]
fn range_resolution_counts_from_the_end() {
    assert_eq!(resolve_span(5, 0, -1), (0, 5));
    assert_eq!(resolve_span(5, -3, -1), (2, 5));
    assert_eq!(resolve_span(5, 1, 3), (1, 4));
    assert_eq!(resolve_span(5, 0, 10), (0, 5));
    assert_eq!(resolve_span(5, 5, 10), (5, 5));
    assert_eq!(resolve_span(5, 3, 1), (3, 3));
    assert_eq!(resolve_span(5, -10, 1), (0, 2));
    assert_eq!(resolve_span(5, 0, -10), (0, 0));
    assert_eq!(resolve_span(0, 0, -1), (0, 0));
    assert_eq!(resolve_position(3, 0), Some(0));
    assert_eq!(resolve_position(3, -1), Some(2));
    assert_eq!(resolve_position(3, 3), None);
    assert_eq!(resolve_position(3, -4), None);
}

#[test]
fn estimated_size_counts_payload_and_slots() {
    assert_eq!(RedisData::String(b"hello".to_vec()).estimated_size(), 5);
    let mut list = VecDeque::new();
    list.push_back(b"ab".to_vec());
    list.push_back(b"cde".to_vec());
    assert_eq!(RedisData::List(list).estimated_size(), 2 + 24 + 3 + 24);
    let mut set = ByteSet::new();
    set.insert(b"m".to_vec());
    assert_eq!(RedisData::SetOf(set).estimated_size(), 1 + 24);
    let mut map = FieldMap::new();
    map.insert(b"f".to_vec(), b"val".to_vec());
    assert_eq!(RedisData::Hash(map).estimated_size(), 1 + 3 + 48);
    let mut zset = SortedSet::new();
    zset.insert(b"mm".to_vec(), 7);
    assert_eq!(RedisData::ZSet(zset).estimated_size(), 2 + 32 + 8);
    assert_eq!(RedisData::ZSet(SortedSet::new()).estimated_size(), 8);
}

#[test]
fn estimated_size_grows_and_shrinks_with_the_value() {
    let mut set = ByteSet::new();
    let empty = RedisData::SetOf(set.clone()).estimated_size();
    set.insert(b"abc".to_vec());
    let one = RedisData::SetOf(set.clone()).estimated_size();
    set.insert(b"de".to_vec());
    let two = RedisData::SetOf(set.clone()).estimated_size();
    set.remove(b"abc");
    let back = RedisData::SetOf(set).estimated_size();
    assert!(empty < one && one < two && back < two);
    assert_eq!(back, 2 + 24);
}

#[test]
fn stored_value_expires_at_its_deadline() {
    let entry = StoredValue { data: RedisData::String(b"v".to_vec()), expire_at: Some(100) };
    assert!(!entry.is_expired(99));
    assert!(entry.is_expired(100));
    assert!(entry.is_expired(101));
    let forever = StoredValue { data: RedisData::String(Vec::new()), expire_at: None };
    assert!(!forever.is_expired(u64::MAX));
    assert_eq!(entry.estimated_size(), 1);
    assert_eq!(entry.data.kind(), Kind::String);
    assert_eq!(RedisData::ZSet(SortedSet::new()).kind(), Kind::ZSet);
}
