//! The operations of the store as one trait, each answer read as the
//! type that the caller asks for.

use vstd::prelude::*;
use vstd::utf8::encode_utf8;
use crate::client::{Client, bytes_of, read_reply, reads_as};
use crate::convert::{FromRedisValue, ToRedisArgs, all_bytes, value_to_vec, values_to_vecs};
use crate::error::RedisError;
use crate::glob::glob_valid;
use crate::model::EngineView;
use crate::numbers::{parse_i64, parse_i64_spec};
use crate::ops::ErrorKind;
use crate::strings::SetOptions;
use crate::value::{ValueView, strings_of};
use crate::zsets::{parse_score_bound, score_bound_of};
use crate::{hashes, keys, lists, server, sets, strings, zsets};

verus! {

/// The answer to a query about a key's lifetime.
#[derive(Debug, Clone, Copy, PartialEq, Eq, Structural)]
pub enum IntegerReplyOrNoOp {
    /// The number that the store answered.
    Integer(i64),
    /// The key is not there.
    NotExists,
    /// The key is there, and the question does not apply to it.
    ExistsButNotRelevant,
}

impl IntegerReplyOrNoOp {
    /// The number that stands for this answer: itself, `-2` for a key
    /// that is not there, `-1` for one that the question does not apply
    /// to.
    pub open spec fn raw_view(self) -> i64 {
        match self {
            IntegerReplyOrNoOp::Integer(n) => n,
            IntegerReplyOrNoOp::NotExists => -2i64,
            IntegerReplyOrNoOp::ExistsButNotRelevant => -1i64,
        }
    }

    /// The answer that the number `n` stands for.
    pub open spec fn of(n: i64) -> IntegerReplyOrNoOp {
        if n == -2 {
            IntegerReplyOrNoOp::NotExists
        } else if n == -1 {
            IntegerReplyOrNoOp::ExistsButNotRelevant
        } else {
            IntegerReplyOrNoOp::Integer(n)
        }
    }

    /// The number that stands for this answer.
    pub fn raw(&self) -> (n: i64)
        ensures
            n == self.raw_view(),
    {
        match self {
            IntegerReplyOrNoOp::Integer(n) => *n,
            IntegerReplyOrNoOp::NotExists => -2,
            IntegerReplyOrNoOp::ExistsButNotRelevant => -1,
        }
    }

    /// The answer that the number `n` stands for.
    pub fn from_raw(n: i64) -> (answer: IntegerReplyOrNoOp)
        ensures
            answer == IntegerReplyOrNoOp::of(n),
            answer.raw_view() == n,
    {
        if n == -2 {
            IntegerReplyOrNoOp::NotExists
        } else if n == -1 {
            IntegerReplyOrNoOp::ExistsButNotRelevant
        } else {
            IntegerReplyOrNoOp::Integer(n)
        }
    }
}

/// What `COPY` can be told.
pub struct CopyOptions<Db: ToRedisArgs> {
    /// The database to copy into.
    pub db: Option<Db>,
    /// Whether a destination that exists may be replaced.
    pub replace: bool,
}

/// The pairs that `items` stand for, as byte strings.
pub open spec fn pairs_of<K: ToRedisArgs, V: ToRedisArgs>(items: Seq<(K, V)>) -> Seq<
    (Seq<u8>, Seq<u8>),
> {
    Seq::new(items.len(), |i: int| (bytes_of(items[i].0), bytes_of(items[i].1)))
}

/// The pairs that `items` stand for, as byte strings.
pub fn pair_vecs<K: ToRedisArgs, V: ToRedisArgs>(items: &[(K, V)]) -> (pairs: Vec<
    (Vec<u8>, Vec<u8>),
>)
    ensures
        strings::pairs_view(pairs@) == pairs_of(items@),
{
    let mut pairs: Vec<(Vec<u8>, Vec<u8>)> = Vec::new();
    let mut i: usize = 0;
    while i < items.len()
        invariant
            i <= items.len(),
            pairs@.len() == i,
            forall|j: int|
                0 <= j < i ==> ((#[trigger] pairs@[j]).0@, pairs@[j].1@) == (
                    bytes_of(items@[j].0),
                    bytes_of(items@[j].1),
                ),
        decreases items.len() - i,
    {
        let key = value_to_vec(&items[i].0);
        let value = value_to_vec(&items[i].1);
        pairs.push((key, value));
        i += 1;
    }
    assert(strings::pairs_view(pairs@) =~= pairs_of(items@));
    pairs
}

/// The operations of the store.
pub trait Commands {
    /// The state of the store.
    spec fn state(&self) -> EngineView;

    /// `GET key`.
    fn get<K: ToRedisArgs, RV: FromRedisValue>(&mut self, key: K) -> (read: Result<RV, RedisError>)
        requires
            old(self).state().wf(),
        ensures
            final(self).state().wf(),
            final(self).state() == old(self).state().queried(bytes_of(key)),
            reads_as::<RV>(read, strings::get_reply(old(self).state().live(bytes_of(key)))),
    ;

    /// `SET key value`.
    fn set<K: ToRedisArgs, V: ToRedisArgs, RV: FromRedisValue>(
        &mut self,
        key: K,
        value: V,
    ) -> (read: Result<RV, RedisError>)
        requires
            old(self).state().wf(),
        ensures
            final(self).state().wf(),
            final(self).state() == old(self).state().after(
                bytes_of(key),
                strings::set_outcome(bytes_of(value)),
            ),
            reads_as::<RV>(
                read,
                old(self).state().reply_to(bytes_of(key), strings::set_outcome(bytes_of(value))),
            ),
    ;

    /// `SET key value` with a lifetime or a condition.
    fn set_options<K: ToRedisArgs, V: ToRedisArgs, RV: FromRedisValue>(
        &mut self,
        key: K,
        value: V,
        options: SetOptions,
    ) -> (read: Result<RV, RedisError>)
        requires
            old(self).state().wf(),
        ensures
            final(self).state().wf(),
            final(self).state() == old(self).state().after(
                bytes_of(key),
                strings::set_options_outcome(
                    old(self).state().live(bytes_of(key)),
                    bytes_of(value),
                    options,
                    old(self).state().now,
                ),
            ),
            reads_as::<RV>(
                read,
                old(self).state().reply_to(
                    bytes_of(key),
                    strings::set_options_outcome(
                        old(self).state().live(bytes_of(key)),
                        bytes_of(value),
                        options,
                        old(self).state().now,
                    ),
                ),
            ),
    ;

    /// `MSET key value ...`: writes the pairs in order, up to the first
    /// that memory has no room for.
    fn mset<K: ToRedisArgs, V: ToRedisArgs, RV: FromRedisValue>(
        &mut self,
        items: &[(K, V)],
    ) -> (read: Result<RV, RedisError>)
        requires
            old(self).state().wf(),
        ensures
            final(self).state().wf(),
            final(self).state() == strings::mset_state(old(self).state(), pairs_of(items@)),
            reads_as::<RV>(
                read,
                if strings::mset_fails(old(self).state(), pairs_of(items@)) {
                    Err(ErrorKind::OutOfMemory)
                } else {
                    Ok(ValueView::Okay)
                },
            ),
    ;

    /// `MGET key...`: one answer for each of the keys that `key` stands
    /// for.
    fn mget<K: ToRedisArgs, RV: FromRedisValue>(&mut self, key: K) -> (read: Result<RV, RedisError>)
        requires
            old(self).state().wf(),
        ensures
            final(self).state().wf(),
            final(self).state() == strings::mget_state(
                old(self).state(),
                all_bytes(key.args_view()),
            ),
            reads_as::<RV>(
                read,
                Ok(
                    ValueView::Array(
                        strings::mget_replies(old(self).state(), all_bytes(key.args_view())),
                    ),
                ),
            ),
    ;

    /// `DEL key`.
    fn del<K: ToRedisArgs, RV: FromRedisValue>(&mut self, key: K) -> (read: Result<RV, RedisError>)
        requires
            old(self).state().wf(),
        ensures
            final(self).state().wf(),
            final(self).state() == old(self).state().after(
                bytes_of(key),
                keys::del_outcome(old(self).state().live(bytes_of(key))),
            ),
            reads_as::<RV>(
                read,
                old(self).state().reply_to(
                    bytes_of(key),
                    keys::del_outcome(old(self).state().live(bytes_of(key))),
                ),
            ),
    ;

    /// `EXISTS key`.
    fn key_exists<K: ToRedisArgs, RV: FromRedisValue>(
        &mut self,
        key: K,
    ) -> (read: Result<RV, RedisError>)
        requires
            old(self).state().wf(),
        ensures
            final(self).state().wf(),
            final(self).state() == old(self).state().after(
                bytes_of(key),
                keys::exists_outcome(old(self).state().live(bytes_of(key))),
            ),
            reads_as::<RV>(
                read,
                old(self).state().reply_to(
                    bytes_of(key),
                    keys::exists_outcome(old(self).state().live(bytes_of(key))),
                ),
            ),
    ;

    /// `APPEND key value`.
    fn append<K: ToRedisArgs, V: ToRedisArgs, RV: FromRedisValue>(
        &mut self,
        key: K,
        value: V,
    ) -> (read: Result<RV, RedisError>)
        requires
            old(self).state().wf(),
        ensures
            final(self).state().wf(),
            final(self).state() == old(self).state().after(
                bytes_of(key),
                strings::append_outcome(old(self).state().live(bytes_of(key)), bytes_of(value)),
            ),
            reads_as::<RV>(
                read,
                old(self).state().reply_to(
                    bytes_of(key),
                    strings::append_outcome(old(self).state().live(bytes_of(key)), bytes_of(value)),
                ),
            ),
    ;

    /// `GETRANGE key from to`.
    fn getrange<K: ToRedisArgs, RV: FromRedisValue>(
        &mut self,
        key: K,
        from: isize,
        to: isize,
    ) -> (read: Result<RV, RedisError>)
        requires
            old(self).state().wf(),
        ensures
            final(self).state().wf(),
            final(self).state() == old(self).state().queried(bytes_of(key)),
            reads_as::<RV>(
                read,
                strings::getrange_reply(
                    old(self).state().live(bytes_of(key)),
                    from as int,
                    to as int,
                ),
            ),
    ;

    /// `SETRANGE key offset value`.
    fn setrange<K: ToRedisArgs, V: ToRedisArgs, RV: FromRedisValue>(
        &mut self,
        key: K,
        offset: isize,
        value: V,
    ) -> (read: Result<RV, RedisError>)
        requires
            old(self).state().wf(),
        ensures
            final(self).state().wf(),
            final(self).state() == old(self).state().after(
                bytes_of(key),
                strings::setrange_outcome(
                    old(self).state().live(bytes_of(key)),
                    offset as int,
                    bytes_of(value),
                ),
            ),
            reads_as::<RV>(
                read,
                old(self).state().reply_to(
                    bytes_of(key),
                    strings::setrange_outcome(
                        old(self).state().live(bytes_of(key)),
                        offset as int,
                        bytes_of(value),
                    ),
                ),
            ),
    ;

    /// `STRLEN key`.
    fn strlen<K: ToRedisArgs, RV: FromRedisValue>(
        &mut self,
        key: K,
    ) -> (read: Result<RV, RedisError>)
        requires
            old(self).state().wf(),
        ensures
            final(self).state().wf(),
            final(self).state() == old(self).state().queried(bytes_of(key)),
            reads_as::<RV>(read, strings::strlen_reply(old(self).state().live(bytes_of(key)))),
    ;

    /// `INCRBY key delta`. A `delta` that is not a number is a parse
    /// error.
    fn incr<K: ToRedisArgs, V: ToRedisArgs, RV: FromRedisValue>(
        &mut self,
        key: K,
        delta: V,
    ) -> (read: Result<RV, RedisError>)
        requires
            old(self).state().wf(),
        ensures
            final(self).state().wf(),
            match parse_i64_spec(bytes_of(delta)) {
                Some(n) => final(self).state() == old(self).state().after(
                    bytes_of(key),
                    strings::incr_outcome(old(self).state().live(bytes_of(key)), n),
                )
                    && reads_as::<RV>(
                        read,
                        old(self).state().reply_to(
                            bytes_of(key),
                            strings::incr_outcome(old(self).state().live(bytes_of(key)), n),
                        ),
                    ),
                None => final(self).state() == old(self).state() && read is Err
                    && read->Err_0 is ParseError,
            },
    ;

    /// `DECRBY key delta`. A `delta` that is not a number is a parse
    /// error.
    fn decr<K: ToRedisArgs, V: ToRedisArgs, RV: FromRedisValue>(
        &mut self,
        key: K,
        delta: V,
    ) -> (read: Result<RV, RedisError>)
        requires
            old(self).state().wf(),
        ensures
            final(self).state().wf(),
            match parse_i64_spec(bytes_of(delta)) {
                Some(n) => final(self).state() == old(self).state().after(
                    bytes_of(key),
                    strings::decr_outcome(old(self).state().live(bytes_of(key)), n),
                )
                    && reads_as::<RV>(
                        read,
                        old(self).state().reply_to(
                            bytes_of(key),
                            strings::decr_outcome(old(self).state().live(bytes_of(key)), n),
                        ),
                    ),
                None => final(self).state() == old(self).state() && read is Err
                    && read->Err_0 is ParseError,
            },
    ;

    /// `HGET key field`.
    fn hget<K: ToRedisArgs, F: ToRedisArgs, RV: FromRedisValue>(
        &mut self,
        key: K,
        field: F,
    ) -> (read: Result<RV, RedisError>)
        requires
            old(self).state().wf(),
        ensures
            final(self).state().wf(),
            final(self).state() == old(self).state().queried(bytes_of(key)),
            reads_as::<RV>(
                read,
                hashes::hget_reply(old(self).state().live(bytes_of(key)), bytes_of(field)),
            ),
    ;

    /// `HMGET key field...`: one answer for each of the fields that
    /// `fields` stands for.
    fn hmget<K: ToRedisArgs, F: ToRedisArgs, RV: FromRedisValue>(
        &mut self,
        key: K,
        fields: F,
    ) -> (read: Result<RV, RedisError>)
        requires
            old(self).state().wf(),
        ensures
            final(self).state().wf(),
            final(self).state() == old(self).state().queried(bytes_of(key)),
            reads_as::<RV>(
                read,
                hashes::hmget_reply(
                    old(self).state().live(bytes_of(key)),
                    all_bytes(fields.args_view()),
                ),
            ),
    ;

    /// `HSET key field value`.
    fn hset<K: ToRedisArgs, F: ToRedisArgs, V: ToRedisArgs, RV: FromRedisValue>(
        &mut self,
        key: K,
        field: F,
        value: V,
    ) -> (read: Result<RV, RedisError>)
        requires
            old(self).state().wf(),
        ensures
            final(self).state().wf(),
            final(self).state() == old(self).state().after(
                bytes_of(key),
                hashes::hset_outcome(
                    old(self).state().live(bytes_of(key)),
                    bytes_of(field),
                    bytes_of(value),
                ),
            ),
            reads_as::<RV>(
                read,
                old(self).state().reply_to(
                    bytes_of(key),
                    hashes::hset_outcome(
                        old(self).state().live(bytes_of(key)),
                        bytes_of(field),
                        bytes_of(value),
                    ),
                ),
            ),
    ;

    /// `HDEL key field`.
    fn hdel<K: ToRedisArgs, F: ToRedisArgs, RV: FromRedisValue>(
        &mut self,
        key: K,
        field: F,
    ) -> (read: Result<RV, RedisError>)
        requires
            old(self).state().wf(),
        ensures
            final(self).state().wf(),
            final(self).state() == old(self).state().after(
                bytes_of(key),
                hashes::hdel_outcome(old(self).state().live(bytes_of(key)), bytes_of(field)),
            ),
            reads_as::<RV>(
                read,
                old(self).state().reply_to(
                    bytes_of(key),
                    hashes::hdel_outcome(old(self).state().live(bytes_of(key)), bytes_of(field)),
                ),
            ),
    ;

    /// `HGETALL key`.
    fn hgetall<K: ToRedisArgs, RV: FromRedisValue>(
        &mut self,
        key: K,
    ) -> (read: Result<RV, RedisError>)
        requires
            old(self).state().wf(),
        ensures
            final(self).state().wf(),
            final(self).state() == old(self).state().queried(bytes_of(key)),
            reads_as::<RV>(read, hashes::hgetall_reply(old(self).state().live(bytes_of(key)))),
    ;

    /// `HKEYS key`.
    fn hkeys<K: ToRedisArgs, RV: FromRedisValue>(
        &mut self,
        key: K,
    ) -> (read: Result<RV, RedisError>)
        requires
            old(self).state().wf(),
        ensures
            final(self).state().wf(),
            final(self).state() == old(self).state().queried(bytes_of(key)),
            reads_as::<RV>(read, hashes::hkeys_reply(old(self).state().live(bytes_of(key)))),
    ;

    /// `HVALS key`.
    fn hvals<K: ToRedisArgs, RV: FromRedisValue>(
        &mut self,
        key: K,
    ) -> (read: Result<RV, RedisError>)
        requires
            old(self).state().wf(),
        ensures
            final(self).state().wf(),
            final(self).state() == old(self).state().queried(bytes_of(key)),
            reads_as::<RV>(read, hashes::hvals_reply(old(self).state().live(bytes_of(key)))),
    ;

    /// `HLEN key`.
    fn hlen<K: ToRedisArgs, RV: FromRedisValue>(&mut self, key: K) -> (read: Result<RV, RedisError>)
        requires
            old(self).state().wf(),
        ensures
            final(self).state().wf(),
            final(self).state() == old(self).state().queried(bytes_of(key)),
            reads_as::<RV>(read, hashes::hlen_reply(old(self).state().live(bytes_of(key)))),
    ;

    /// `HINCRBY key field delta`. A `delta` that is not a number is a
    /// parse error.
    fn hincr<K: ToRedisArgs, F: ToRedisArgs, D: ToRedisArgs, RV: FromRedisValue>(
        &mut self,
        key: K,
        field: F,
        delta: D,
    ) -> (read: Result<RV, RedisError>)
        requires
            old(self).state().wf(),
        ensures
            final(self).state().wf(),
            match parse_i64_spec(bytes_of(delta)) {
                Some(n) => final(self).state() == old(self).state().after(
                    bytes_of(key),
                    hashes::hincr_outcome(
                        old(self).state().live(bytes_of(key)),
                        bytes_of(field),
                        n,
                    ),
                )
                    && reads_as::<RV>(
                        read,
                        old(self).state().reply_to(
                            bytes_of(key),
                            hashes::hincr_outcome(
                                old(self).state().live(bytes_of(key)),
                                bytes_of(field),
                                n,
                            ),
                        ),
                    ),
                None => final(self).state() == old(self).state() && read is Err
                    && read->Err_0 is ParseError,
            },
    ;

    /// `HEXISTS key field`.
    fn hexists<K: ToRedisArgs, F: ToRedisArgs, RV: FromRedisValue>(
        &mut self,
        key: K,
        field: F,
    ) -> (read: Result<RV, RedisError>)
        requires
            old(self).state().wf(),
        ensures
            final(self).state().wf(),
            final(self).state() == old(self).state().queried(bytes_of(key)),
            reads_as::<RV>(
                read,
                hashes::hexists_reply(old(self).state().live(bytes_of(key)), bytes_of(field)),
            ),
    ;

    /// `LPUSH key value`.
    fn lpush<K: ToRedisArgs, V: ToRedisArgs, RV: FromRedisValue>(
        &mut self,
        key: K,
        value: V,
    ) -> (read: Result<RV, RedisError>)
        requires
            old(self).state().wf(),
        ensures
            final(self).state().wf(),
            final(self).state() == old(self).state().after(
                bytes_of(key),
                lists::lpush_outcome(old(self).state().live(bytes_of(key)), bytes_of(value)),
            ),
            reads_as::<RV>(
                read,
                old(self).state().reply_to(
                    bytes_of(key),
                    lists::lpush_outcome(old(self).state().live(bytes_of(key)), bytes_of(value)),
                ),
            ),
    ;

    /// `RPUSH key value`.
    fn rpush<K: ToRedisArgs, V: ToRedisArgs, RV: FromRedisValue>(
        &mut self,
        key: K,
        value: V,
    ) -> (read: Result<RV, RedisError>)
        requires
            old(self).state().wf(),
        ensures
            final(self).state().wf(),
            final(self).state() == old(self).state().after(
                bytes_of(key),
                lists::rpush_outcome(old(self).state().live(bytes_of(key)), bytes_of(value)),
            ),
            reads_as::<RV>(
                read,
                old(self).state().reply_to(
                    bytes_of(key),
                    lists::rpush_outcome(old(self).state().live(bytes_of(key)), bytes_of(value)),
                ),
            ),
    ;

    /// `LPOP key`.
    fn lpop<K: ToRedisArgs, RV: FromRedisValue>(&mut self, key: K) -> (read: Result<RV, RedisError>)
        requires
            old(self).state().wf(),
        ensures
            final(self).state().wf(),
            final(self).state() == old(self).state().after(
                bytes_of(key),
                lists::lpop_outcome(old(self).state().live(bytes_of(key))),
            ),
            reads_as::<RV>(
                read,
                old(self).state().reply_to(
                    bytes_of(key),
                    lists::lpop_outcome(old(self).state().live(bytes_of(key))),
                ),
            ),
    ;

    /// `RPOP key`.
    fn rpop<K: ToRedisArgs, RV: FromRedisValue>(&mut self, key: K) -> (read: Result<RV, RedisError>)
        requires
            old(self).state().wf(),
        ensures
            final(self).state().wf(),
            final(self).state() == old(self).state().after(
                bytes_of(key),
                lists::rpop_outcome(old(self).state().live(bytes_of(key))),
            ),
            reads_as::<RV>(
                read,
                old(self).state().reply_to(
                    bytes_of(key),
                    lists::rpop_outcome(old(self).state().live(bytes_of(key))),
                ),
            ),
    ;

    /// `LLEN key`.
    fn llen<K: ToRedisArgs, RV: FromRedisValue>(&mut self, key: K) -> (read: Result<RV, RedisError>)
        requires
            old(self).state().wf(),
        ensures
            final(self).state().wf(),
            final(self).state() == old(self).state().queried(bytes_of(key)),
            reads_as::<RV>(read, lists::llen_reply(old(self).state().live(bytes_of(key)))),
    ;

    /// `LRANGE key start stop`.
    fn lrange<K: ToRedisArgs, RV: FromRedisValue>(
        &mut self,
        key: K,
        start: isize,
        stop: isize,
    ) -> (read: Result<RV, RedisError>)
        requires
            old(self).state().wf(),
        ensures
            final(self).state().wf(),
            final(self).state() == old(self).state().queried(bytes_of(key)),
            reads_as::<RV>(
                read,
                lists::lrange_reply(
                    old(self).state().live(bytes_of(key)),
                    start as int,
                    stop as int,
                ),
            ),
    ;

    /// `LINDEX key index`.
    fn lindex<K: ToRedisArgs, RV: FromRedisValue>(
        &mut self,
        key: K,
        index: isize,
    ) -> (read: Result<RV, RedisError>)
        requires
            old(self).state().wf(),
        ensures
            final(self).state().wf(),
            final(self).state() == old(self).state().queried(bytes_of(key)),
            reads_as::<RV>(
                read,
                lists::lindex_reply(old(self).state().live(bytes_of(key)), index as int),
            ),
    ;

    /// `SADD key member`.
    fn sadd<K: ToRedisArgs, V: ToRedisArgs, RV: FromRedisValue>(
        &mut self,
        key: K,
        member: V,
    ) -> (read: Result<RV, RedisError>)
        requires
            old(self).state().wf(),
        ensures
            final(self).state().wf(),
            final(self).state() == old(self).state().after(
                bytes_of(key),
                sets::sadd_outcome(old(self).state().live(bytes_of(key)), bytes_of(member)),
            ),
            reads_as::<RV>(
                read,
                old(self).state().reply_to(
                    bytes_of(key),
                    sets::sadd_outcome(old(self).state().live(bytes_of(key)), bytes_of(member)),
                ),
            ),
    ;

    /// `SREM key member`.
    fn srem<K: ToRedisArgs, V: ToRedisArgs, RV: FromRedisValue>(
        &mut self,
        key: K,
        member: V,
    ) -> (read: Result<RV, RedisError>)
        requires
            old(self).state().wf(),
        ensures
            final(self).state().wf(),
            final(self).state() == old(self).state().after(
                bytes_of(key),
                sets::srem_outcome(old(self).state().live(bytes_of(key)), bytes_of(member)),
            ),
            reads_as::<RV>(
                read,
                old(self).state().reply_to(
                    bytes_of(key),
                    sets::srem_outcome(old(self).state().live(bytes_of(key)), bytes_of(member)),
                ),
            ),
    ;

    /// `SMEMBERS key`.
    fn smembers<K: ToRedisArgs, RV: FromRedisValue>(
        &mut self,
        key: K,
    ) -> (read: Result<RV, RedisError>)
        requires
            old(self).state().wf(),
        ensures
            final(self).state().wf(),
            final(self).state() == old(self).state().queried(bytes_of(key)),
            reads_as::<RV>(read, sets::smembers_reply(old(self).state().live(bytes_of(key)))),
    ;

    /// `SISMEMBER key member`.
    fn sismember<K: ToRedisArgs, V: ToRedisArgs, RV: FromRedisValue>(
        &mut self,
        key: K,
        member: V,
    ) -> (read: Result<RV, RedisError>)
        requires
            old(self).state().wf(),
        ensures
            final(self).state().wf(),
            final(self).state() == old(self).state().queried(bytes_of(key)),
            reads_as::<RV>(
                read,
                sets::sismember_reply(old(self).state().live(bytes_of(key)), bytes_of(member)),
            ),
    ;

    /// `SCARD key`.
    fn scard<K: ToRedisArgs, RV: FromRedisValue>(
        &mut self,
        key: K,
    ) -> (read: Result<RV, RedisError>)
        requires
            old(self).state().wf(),
        ensures
            final(self).state().wf(),
            final(self).state() == old(self).state().queried(bytes_of(key)),
            reads_as::<RV>(read, sets::scard_reply(old(self).state().live(bytes_of(key)))),
    ;

    /// `SPOP key`.
    fn spop<K: ToRedisArgs, RV: FromRedisValue>(&mut self, key: K) -> (read: Result<RV, RedisError>)
        requires
            old(self).state().wf(),
        ensures
            final(self).state().wf(),
            final(self).state() == old(self).state().after(
                bytes_of(key),
                sets::spop_outcome(old(self).state().live(bytes_of(key))),
            ),
            reads_as::<RV>(
                read,
                old(self).state().reply_to(
                    bytes_of(key),
                    sets::spop_outcome(old(self).state().live(bytes_of(key))),
                ),
            ),
    ;

    /// `ZADD key score member`. A `score` that is not a number is a
    /// parse error.
    fn zadd<K: ToRedisArgs, S: ToRedisArgs, V: ToRedisArgs, RV: FromRedisValue>(
        &mut self,
        key: K,
        score: S,
        member: V,
    ) -> (read: Result<RV, RedisError>)
        requires
            old(self).state().wf(),
        ensures
            final(self).state().wf(),
            match parse_i64_spec(bytes_of(score)) {
                Some(n) => final(self).state() == old(self).state().after(
                    bytes_of(key),
                    zsets::zadd_outcome(old(self).state().live(bytes_of(key)), n, bytes_of(member)),
                )
                    && reads_as::<RV>(
                        read,
                        old(self).state().reply_to(
                            bytes_of(key),
                            zsets::zadd_outcome(
                                old(self).state().live(bytes_of(key)),
                                n,
                                bytes_of(member),
                            ),
                        ),
                    ),
                None => final(self).state() == old(self).state() && read is Err
                    && read->Err_0 is ParseError,
            },
    ;

    /// `ZREM key member`.
    fn zrem<K: ToRedisArgs, V: ToRedisArgs, RV: FromRedisValue>(
        &mut self,
        key: K,
        member: V,
    ) -> (read: Result<RV, RedisError>)
        requires
            old(self).state().wf(),
        ensures
            final(self).state().wf(),
            final(self).state() == old(self).state().after(
                bytes_of(key),
                zsets::zrem_outcome(old(self).state().live(bytes_of(key)), bytes_of(member)),
            ),
            reads_as::<RV>(
                read,
                old(self).state().reply_to(
                    bytes_of(key),
                    zsets::zrem_outcome(old(self).state().live(bytes_of(key)), bytes_of(member)),
                ),
            ),
    ;

    /// `ZRANGE key start stop`.
    fn zrange<K: ToRedisArgs, RV: FromRedisValue>(
        &mut self,
        key: K,
        start: isize,
        stop: isize,
    ) -> (read: Result<RV, RedisError>)
        requires
            old(self).state().wf(),
        ensures
            final(self).state().wf(),
            final(self).state() == old(self).state().queried(bytes_of(key)),
            reads_as::<RV>(
                read,
                zsets::zrange_reply(
                    old(self).state().live(bytes_of(key)),
                    start as int,
                    stop as int,
                ),
            ),
    ;

    /// `ZRANGEBYSCORE key min max`. A bound that cannot be read is an
    /// invalid argument.
    fn zrangebyscore<K: ToRedisArgs, RV: FromRedisValue>(
        &mut self,
        key: K,
        min: &str,
        max: &str,
    ) -> (read: Result<RV, RedisError>)
        requires
            old(self).state().wf(),
        ensures
            final(self).state().wf(),
            match (score_bound_of(encode_utf8(min@)), score_bound_of(encode_utf8(max@))) {
                (Some(low), Some(high)) => final(self).state() == old(self).state().queried(
                    bytes_of(key),
                )
                    && reads_as::<RV>(
                        read,
                        zsets::zrangebyscore_reply(
                            old(self).state().live(bytes_of(key)),
                            low,
                            high,
                        ),
                    ),
                _ => final(self).state() == old(self).state() && read is Err
                    && read->Err_0 is InvalidArgument,
            },
    ;

    /// `ZCARD key`.
    fn zcard<K: ToRedisArgs, RV: FromRedisValue>(
        &mut self,
        key: K,
    ) -> (read: Result<RV, RedisError>)
        requires
            old(self).state().wf(),
        ensures
            final(self).state().wf(),
            final(self).state() == old(self).state().queried(bytes_of(key)),
            reads_as::<RV>(read, zsets::zcard_reply(old(self).state().live(bytes_of(key)))),
    ;

    /// `ZSCORE key member`.
    fn zscore<K: ToRedisArgs, V: ToRedisArgs, RV: FromRedisValue>(
        &mut self,
        key: K,
        member: V,
    ) -> (read: Result<RV, RedisError>)
        requires
            old(self).state().wf(),
        ensures
            final(self).state().wf(),
            final(self).state() == old(self).state().queried(bytes_of(key)),
            reads_as::<RV>(
                read,
                zsets::zscore_reply(old(self).state().live(bytes_of(key)), bytes_of(member)),
            ),
    ;

    /// `ZCOUNT key min max`. A bound that cannot be read is an invalid
    /// argument.
    fn zcount<K: ToRedisArgs, RV: FromRedisValue>(
        &mut self,
        key: K,
        min: &str,
        max: &str,
    ) -> (read: Result<RV, RedisError>)
        requires
            old(self).state().wf(),
        ensures
            final(self).state().wf(),
            match (score_bound_of(encode_utf8(min@)), score_bound_of(encode_utf8(max@))) {
                (Some(low), Some(high)) => final(self).state() == old(self).state().queried(
                    bytes_of(key),
                )
                    && reads_as::<RV>(
                        read,
                        zsets::zcount_reply(old(self).state().live(bytes_of(key)), low, high),
                    ),
                _ => final(self).state() == old(self).state() && read is Err
                    && read->Err_0 is InvalidArgument,
            },
    ;

    /// `EXPIRE key seconds`.
    fn expire<K: ToRedisArgs>(&mut self, key: K, seconds: i64) -> (read: Result<bool, RedisError>)
        requires
            old(self).state().wf(),
        ensures
            final(self).state().wf(),
            final(self).state() == keys::expire_state(
                old(self).state(),
                bytes_of(key),
                seconds,
                1000,
            ),
            reads_as::<bool>(read, keys::expire_reply(old(self).state(), bytes_of(key), seconds)),
    ;

    /// `EXPIREAT key seconds-since-epoch`.
    fn expire_at<K: ToRedisArgs>(&mut self, key: K, ts: i64) -> (read: Result<bool, RedisError>)
        requires
            old(self).state().wf(),
        ensures
            final(self).state().wf(),
            final(self).state() == keys::expire_at_state(
                old(self).state(),
                bytes_of(key),
                ts,
                1000,
            ),
            reads_as::<bool>(read, keys::expire_reply(old(self).state(), bytes_of(key), ts)),
    ;

    /// `PEXPIRE key milliseconds`.
    fn pexpire<K: ToRedisArgs>(&mut self, key: K, ms: i64) -> (read: Result<bool, RedisError>)
        requires
            old(self).state().wf(),
        ensures
            final(self).state().wf(),
            final(self).state() == keys::expire_state(old(self).state(), bytes_of(key), ms, 1),
            reads_as::<bool>(read, keys::expire_reply(old(self).state(), bytes_of(key), ms)),
    ;

    /// `PEXPIREAT key milliseconds-since-epoch`.
    fn pexpire_at<K: ToRedisArgs>(&mut self, key: K, ts: i64) -> (read: Result<bool, RedisError>)
        requires
            old(self).state().wf(),
        ensures
            final(self).state().wf(),
            final(self).state() == keys::expire_at_state(old(self).state(), bytes_of(key), ts, 1),
            reads_as::<bool>(read, keys::expire_reply(old(self).state(), bytes_of(key), ts)),
    ;

    /// `TTL key`: the seconds left, or that the key has no deadline, or that
    /// it holds no live entry.
    fn ttl<K: ToRedisArgs>(&mut self, key: K) -> (read: Result<IntegerReplyOrNoOp, RedisError>)
        requires
            old(self).state().wf(),
        ensures
            final(self).state().wf(),
            final(self).state() == old(self).state().purge(bytes_of(key)),
            read == Ok::<IntegerReplyOrNoOp, RedisError>(
                IntegerReplyOrNoOp::of(old(self).state().ttl_reply(bytes_of(key), 1000)),
            ),
    ;

    /// `PTTL key`: the milliseconds left, or that the key has no deadline,
    /// or that it holds no live entry.
    fn pttl<K: ToRedisArgs>(&mut self, key: K) -> (read: Result<IntegerReplyOrNoOp, RedisError>)
        requires
            old(self).state().wf(),
        ensures
            final(self).state().wf(),
            final(self).state() == old(self).state().purge(bytes_of(key)),
            read == Ok::<IntegerReplyOrNoOp, RedisError>(
                IntegerReplyOrNoOp::of(old(self).state().ttl_reply(bytes_of(key), 1)),
            ),
    ;

    /// `PERSIST key`.
    fn persist<K: ToRedisArgs>(&mut self, key: K) -> (read: Result<bool, RedisError>)
        requires
            old(self).state().wf(),
        ensures
            final(self).state().wf(),
            final(self).state() == old(self).state().with_expiry(bytes_of(key), None),
            read == Ok::<bool, RedisError>(old(self).state().live(bytes_of(key)) is Some),
    ;

    /// `EXPIRETIME key`: the wall-clock second at which the key expires, or
    /// that the key has no deadline, or that it holds no live entry.
    fn expire_time<K: ToRedisArgs>(
        &mut self,
        key: K,
    ) -> (read: Result<IntegerReplyOrNoOp, RedisError>)
        requires
            old(self).state().wf(),
        ensures
            final(self).state().wf(),
            final(self).state() == old(self).state().purge(bytes_of(key)),
            read == Ok::<IntegerReplyOrNoOp, RedisError>(
                IntegerReplyOrNoOp::of(keys::expire_time_of(old(self).state(), bytes_of(key))),
            ),
    ;

    /// `SETBIT key offset value`: the bit that was there.
    fn setbit<K: ToRedisArgs>(
        &mut self,
        key: K,
        offset: usize,
        value: bool,
    ) -> (read: Result<bool, RedisError>)
        requires
            old(self).state().wf(),
        ensures
            final(self).state().wf(),
            final(self).state() == old(self).state().after(
                bytes_of(key),
                strings::setbit_outcome(
                    old(self).state().live(bytes_of(key)),
                    offset as int,
                    value,
                ),
            ),
            match old(self).state().reply_to(
                bytes_of(key),
                strings::setbit_outcome(
                    old(self).state().live(bytes_of(key)),
                    offset as int,
                    value,
                ),
            ) {
                Ok(v) => read == Ok::<bool, RedisError>(v != ValueView::Int(0)),
                Err(kind) => read is Err && read->Err_0.kind_view() == kind,
            },
    ;

    /// `GETBIT key offset`.
    fn getbit<K: ToRedisArgs>(&mut self, key: K, offset: usize) -> (read: Result<bool, RedisError>)
        requires
            old(self).state().wf(),
        ensures
            final(self).state().wf(),
            final(self).state() == old(self).state().queried(bytes_of(key)),
            match strings::string_of(old(self).state().live(bytes_of(key))) {
                Some(bytes) => read == Ok::<bool, RedisError>(
                    strings::bit_at(bytes, offset as int),
                ),
                None => read is Err && read->Err_0 is WrongType,
            },
    ;

    /// `BITCOUNT key`.
    fn bitcount<K: ToRedisArgs>(&mut self, key: K) -> (read: Result<usize, RedisError>)
        requires
            old(self).state().wf(),
        ensures
            final(self).state().wf(),
            final(self).state() == old(self).state().queried(bytes_of(key)),
            reads_as::<usize>(read, strings::bitcount_reply(old(self).state().live(bytes_of(key)))),
    ;

    /// `BITCOUNT key start end`, over the bytes from `start` to `end`.
    /// Positions beyond what a signed index can name are an invalid argument.
    fn bitcount_range<K: ToRedisArgs>(
        &mut self,
        key: K,
        start: usize,
        end: usize,
    ) -> (read: Result<usize, RedisError>)
        requires
            old(self).state().wf(),
        ensures
            final(self).state().wf(),
            start <= isize::MAX && end <= isize::MAX ==> final(self).state()
                == old(self).state().queried(bytes_of(key)) && reads_as::<usize>(
                read,
                strings::bitcount_range_reply(
                    old(self).state().live(bytes_of(key)),
                    start as int,
                    end as int,
                ),
            ),
            start > isize::MAX || end > isize::MAX ==> final(self).state()
                == old(self).state() && read is Err && read->Err_0 is InvalidArgument,
    ;

    /// `BITOP AND`: bitwise operations across keys are not supported.
    fn bit_and<D: ToRedisArgs, S: ToRedisArgs, RV: FromRedisValue>(
        &mut self,
        dstkey: D,
        srckeys: S,
    ) -> (read: Result<RV, RedisError>)
        requires
            old(self).state().wf(),
        ensures
            final(self).state().wf(),
            final(self).state() == old(self).state(),
            read is Err,
            read->Err_0 is NotSupported,
    ;

    /// `BITOP OR`: bitwise operations across keys are not supported.
    fn bit_or<D: ToRedisArgs, S: ToRedisArgs, RV: FromRedisValue>(
        &mut self,
        dstkey: D,
        srckeys: S,
    ) -> (read: Result<RV, RedisError>)
        requires
            old(self).state().wf(),
        ensures
            final(self).state().wf(),
            final(self).state() == old(self).state(),
            read is Err,
            read->Err_0 is NotSupported,
    ;

    /// `BITOP XOR`: bitwise operations across keys are not supported.
    fn bit_xor<D: ToRedisArgs, S: ToRedisArgs, RV: FromRedisValue>(
        &mut self,
        dstkey: D,
        srckeys: S,
    ) -> (read: Result<RV, RedisError>)
        requires
            old(self).state().wf(),
        ensures
            final(self).state().wf(),
            final(self).state() == old(self).state(),
            read is Err,
            read->Err_0 is NotSupported,
    ;

    /// `BITOP NOT`: bitwise operations across keys are not supported.
    fn bit_not<D: ToRedisArgs, S: ToRedisArgs, RV: FromRedisValue>(
        &mut self,
        dstkey: D,
        srckey: S,
    ) -> (read: Result<RV, RedisError>)
        requires
            old(self).state().wf(),
        ensures
            final(self).state().wf(),
            final(self).state() == old(self).state(),
            read is Err,
            read->Err_0 is NotSupported,
    ;

    /// `KEYS pattern`: every live key that the pattern matches, once, in no
    /// particular order. A pattern that is not well formed is an invalid
    /// argument.
    fn keys<K: ToRedisArgs, RV: FromRedisValue>(&mut self, key: K) -> (read: Result<RV, RedisError>)
        requires
            old(self).state().wf(),
        ensures
            final(self).state().wf(),
            !glob_valid(bytes_of(key)) ==> final(self).state() == old(self).state() && read is Err
                && read->Err_0 is InvalidArgument,
            glob_valid(bytes_of(key)) ==> final(self).state() == old(self).state().swept()
                && exists|found: Seq<Seq<u8>>|
                {
                    &&& reads_as::<RV>(read, Ok(ValueView::Array(strings_of(found))))
                    &&& found.no_duplicates()
                    &&& found.to_set() == keys::matching_keys(
                        old(self).state().swept(),
                        bytes_of(key),
                    )
                },
    ;

    /// `TYPE key`.
    fn key_type<K: ToRedisArgs, RV: FromRedisValue>(
        &mut self,
        key: K,
    ) -> (read: Result<RV, RedisError>)
        requires
            old(self).state().wf(),
        ensures
            final(self).state().wf(),
            final(self).state() == old(self).state().purge(bytes_of(key)),
            reads_as::<RV>(
                read,
                Ok(
                    ValueView::String(
                        encode_utf8(keys::kind_name(old(self).state().live(bytes_of(key)))),
                    ),
                ),
            ),
    ;

    /// `RENAME key new_key`.
    fn rename<K: ToRedisArgs, N: ToRedisArgs, RV: FromRedisValue>(
        &mut self,
        key: K,
        new_key: N,
    ) -> (read: Result<RV, RedisError>)
        requires
            old(self).state().wf(),
        ensures
            final(self).state().wf(),
            final(self).state() == keys::rename_state(
                old(self).state(),
                bytes_of(key),
                bytes_of(new_key),
            ),
            reads_as::<RV>(
                read,
                keys::rename_reply(old(self).state(), bytes_of(key), bytes_of(new_key)),
            ),
    ;

    /// `RENAMENX key new_key`.
    fn rename_nx<K: ToRedisArgs, N: ToRedisArgs, RV: FromRedisValue>(
        &mut self,
        key: K,
        new_key: N,
    ) -> (read: Result<RV, RedisError>)
        requires
            old(self).state().wf(),
        ensures
            final(self).state().wf(),
            final(self).state() == keys::rename_nx_state(
                old(self).state(),
                bytes_of(key),
                bytes_of(new_key),
            ),
            reads_as::<RV>(
                read,
                keys::rename_nx_reply(old(self).state(), bytes_of(key), bytes_of(new_key)),
            ),
    ;

    /// `UNLINK key`: the same as `DEL`.
    fn unlink<K: ToRedisArgs, RV: FromRedisValue>(
        &mut self,
        key: K,
    ) -> (read: Result<RV, RedisError>)
        requires
            old(self).state().wf(),
        ensures
            final(self).state().wf(),
            final(self).state() == old(self).state().after(
                bytes_of(key),
                keys::del_outcome(old(self).state().live(bytes_of(key))),
            ),
            reads_as::<RV>(
                read,
                old(self).state().reply_to(
                    bytes_of(key),
                    keys::del_outcome(old(self).state().live(bytes_of(key))),
                ),
            ),
    ;

    /// `COPY source destination`. The options are accepted and ignored:
    /// there is one database, and a destination that holds a live entry is
    /// never replaced.
    fn copy<KSrc: ToRedisArgs, KDst: ToRedisArgs, Db: ToRedisArgs, RV: FromRedisValue>(
        &mut self,
        source: KSrc,
        destination: KDst,
        options: CopyOptions<Db>,
    ) -> (read: Result<RV, RedisError>)
        requires
            old(self).state().wf(),
        ensures
            final(self).state().wf(),
            final(self).state() == keys::copy_state(
                old(self).state(),
                bytes_of(source),
                bytes_of(destination),
            ),
            reads_as::<RV>(
                read,
                keys::copy_reply(old(self).state(), bytes_of(source), bytes_of(destination)),
            ),
    ;

    /// `PING`.
    fn ping<RV: FromRedisValue>(&mut self) -> (read: Result<RV, RedisError>)
        requires
            old(self).state().wf(),
        ensures
            final(self).state().wf(),
            final(self).state() == old(self).state(),
            reads_as::<RV>(read, Ok(ValueView::String(encode_utf8("PONG"@)))),
    ;

    /// `ECHO msg`.
    fn echo<K: ToRedisArgs, RV: FromRedisValue>(&mut self, msg: K) -> (read: Result<RV, RedisError>)
        requires
            old(self).state().wf(),
        ensures
            final(self).state().wf(),
            final(self).state() == old(self).state(),
            reads_as::<RV>(read, Ok(ValueView::String(bytes_of(msg)))),
    ;

    /// `FLUSHDB`.
    fn flushdb<RV: FromRedisValue>(&mut self) -> (read: Result<RV, RedisError>)
        requires
            old(self).state().wf(),
        ensures
            final(self).state().wf(),
            final(self).state() == old(self).state().flushed(),
            reads_as::<RV>(read, Ok(ValueView::Okay)),
    ;

    /// `FLUSHALL`.
    fn flushall<RV: FromRedisValue>(&mut self) -> (read: Result<RV, RedisError>)
        requires
            old(self).state().wf(),
        ensures
            final(self).state().wf(),
            final(self).state() == old(self).state().flushed(),
            reads_as::<RV>(read, Ok(ValueView::Okay)),
    ;

    /// `DBSIZE`: the number of live keys.
    fn dbsize<RV: FromRedisValue>(&mut self) -> (read: Result<RV, RedisError>)
        requires
            old(self).state().wf(),
        ensures
            final(self).state().wf(),
            final(self).state() == old(self).state().swept(),
            reads_as::<RV>(
                read,
                Ok(ValueView::Int(old(self).state().swept().entries.dom().len() as i64)),
            ),
    ;

    /// `LASTSAVE`: the wall-clock second at which the store started.
    fn lastsave<RV: FromRedisValue>(&mut self) -> (read: Result<RV, RedisError>)
        requires
            old(self).state().wf(),
        ensures
            final(self).state().wf(),
            final(self).state() == old(self).state(),
            reads_as::<RV>(
                read,
                Ok(
                    ValueView::Int(
                        match old(self).state().started_s {
                            Some(s) => s as i64,
                            None => 0i64,
                        },
                    ),
                ),
            ),
    ;

    /// `TIME`: the wall-clock time as seconds and microseconds.
    fn time<RV: FromRedisValue>(&mut self) -> (read: Result<RV, RedisError>)
        requires
            old(self).state().wf(),
        ensures
            final(self).state().wf(),
            final(self).state() == old(self).state(),
            reads_as::<RV>(
                read,
                Ok(ValueView::Array(server::time_parts(old(self).state().wall_us))),
            ),
    ;
}

impl Commands for Client {
    open spec fn state(&self) -> EngineView {
        self@
    }

    fn get<K: ToRedisArgs, RV: FromRedisValue>(
        &mut self,
        key: K,
    ) -> (read: Result<RV, RedisError>) {
        let key = value_to_vec(&key);
        read_reply(strings::get(self.engine_mut(), key.as_slice()))
    }

    fn set<K: ToRedisArgs, V: ToRedisArgs, RV: FromRedisValue>(
        &mut self,
        key: K,
        value: V,
    ) -> (read: Result<RV, RedisError>) {
        let key = value_to_vec(&key);
        let value = value_to_vec(&value);
        read_reply(strings::set(self.engine_mut(), key.as_slice(), value))
    }

    fn set_options<K: ToRedisArgs, V: ToRedisArgs, RV: FromRedisValue>(
        &mut self,
        key: K,
        value: V,
        options: SetOptions,
    ) -> (read: Result<RV, RedisError>) {
        let key = value_to_vec(&key);
        let value = value_to_vec(&value);
        read_reply(strings::set_options(self.engine_mut(), key.as_slice(), value, options))
    }

    fn mset<K: ToRedisArgs, V: ToRedisArgs, RV: FromRedisValue>(
        &mut self,
        items: &[(K, V)],
    ) -> (read: Result<RV, RedisError>) {
        let pairs = pair_vecs(items);
        read_reply(strings::mset(self.engine_mut(), &pairs))
    }

    fn mget<K: ToRedisArgs, RV: FromRedisValue>(
        &mut self,
        key: K,
    ) -> (read: Result<RV, RedisError>) {
        let keys = values_to_vecs(&key);
        read_reply(strings::mget(self.engine_mut(), &keys))
    }

    fn del<K: ToRedisArgs, RV: FromRedisValue>(
        &mut self,
        key: K,
    ) -> (read: Result<RV, RedisError>) {
        let key = value_to_vec(&key);
        read_reply(keys::del(self.engine_mut(), key.as_slice()))
    }

    fn key_exists<K: ToRedisArgs, RV: FromRedisValue>(
        &mut self,
        key: K,
    ) -> (read: Result<RV, RedisError>) {
        let key = value_to_vec(&key);
        read_reply(keys::key_exists(self.engine_mut(), key.as_slice()))
    }

    fn append<K: ToRedisArgs, V: ToRedisArgs, RV: FromRedisValue>(
        &mut self,
        key: K,
        value: V,
    ) -> (read: Result<RV, RedisError>) {
        let key = value_to_vec(&key);
        let value = value_to_vec(&value);
        read_reply(strings::append(self.engine_mut(), key.as_slice(), value.as_slice()))
    }

    fn getrange<K: ToRedisArgs, RV: FromRedisValue>(
        &mut self,
        key: K,
        from: isize,
        to: isize,
    ) -> (read: Result<RV, RedisError>) {
        let key = value_to_vec(&key);
        read_reply(strings::getrange(self.engine_mut(), key.as_slice(), from, to))
    }

    fn setrange<K: ToRedisArgs, V: ToRedisArgs, RV: FromRedisValue>(
        &mut self,
        key: K,
        offset: isize,
        value: V,
    ) -> (read: Result<RV, RedisError>) {
        let key = value_to_vec(&key);
        let value = value_to_vec(&value);
        read_reply(strings::setrange(self.engine_mut(), key.as_slice(), offset, value.as_slice()))
    }

    fn strlen<K: ToRedisArgs, RV: FromRedisValue>(
        &mut self,
        key: K,
    ) -> (read: Result<RV, RedisError>) {
        let key = value_to_vec(&key);
        read_reply(strings::strlen(self.engine_mut(), key.as_slice()))
    }

    fn incr<K: ToRedisArgs, V: ToRedisArgs, RV: FromRedisValue>(
        &mut self,
        key: K,
        delta: V,
    ) -> (read: Result<RV, RedisError>) {
        let key = value_to_vec(&key);
        match parse_i64(value_to_vec(&delta).as_slice()) {
            Some(n) => read_reply(strings::incr_by(self.engine_mut(), key.as_slice(), n)),
            None => Err(RedisError::ParseError),
        }
    }

    fn decr<K: ToRedisArgs, V: ToRedisArgs, RV: FromRedisValue>(
        &mut self,
        key: K,
        delta: V,
    ) -> (read: Result<RV, RedisError>) {
        let key = value_to_vec(&key);
        match parse_i64(value_to_vec(&delta).as_slice()) {
            Some(n) => read_reply(strings::decr_by(self.engine_mut(), key.as_slice(), n)),
            None => Err(RedisError::ParseError),
        }
    }

    fn hget<K: ToRedisArgs, F: ToRedisArgs, RV: FromRedisValue>(
        &mut self,
        key: K,
        field: F,
    ) -> (read: Result<RV, RedisError>) {
        let key = value_to_vec(&key);
        let field = value_to_vec(&field);
        read_reply(hashes::hget(self.engine_mut(), key.as_slice(), field.as_slice()))
    }

    fn hmget<K: ToRedisArgs, F: ToRedisArgs, RV: FromRedisValue>(
        &mut self,
        key: K,
        fields: F,
    ) -> (read: Result<RV, RedisError>) {
        let key = value_to_vec(&key);
        let fields = values_to_vecs(&fields);
        read_reply(hashes::hmget(self.engine_mut(), key.as_slice(), &fields))
    }

    fn hset<K: ToRedisArgs, F: ToRedisArgs, V: ToRedisArgs, RV: FromRedisValue>(
        &mut self,
        key: K,
        field: F,
        value: V,
    ) -> (read: Result<RV, RedisError>) {
        let key = value_to_vec(&key);
        let field = value_to_vec(&field);
        let value = value_to_vec(&value);
        read_reply(hashes::hset(self.engine_mut(), key.as_slice(), field, value))
    }

    fn hdel<K: ToRedisArgs, F: ToRedisArgs, RV: FromRedisValue>(
        &mut self,
        key: K,
        field: F,
    ) -> (read: Result<RV, RedisError>) {
        let key = value_to_vec(&key);
        let field = value_to_vec(&field);
        read_reply(hashes::hdel(self.engine_mut(), key.as_slice(), field.as_slice()))
    }

    fn hgetall<K: ToRedisArgs, RV: FromRedisValue>(
        &mut self,
        key: K,
    ) -> (read: Result<RV, RedisError>) {
        let key = value_to_vec(&key);
        read_reply(hashes::hgetall(self.engine_mut(), key.as_slice()))
    }

    fn hkeys<K: ToRedisArgs, RV: FromRedisValue>(
        &mut self,
        key: K,
    ) -> (read: Result<RV, RedisError>) {
        let key = value_to_vec(&key);
        read_reply(hashes::hkeys(self.engine_mut(), key.as_slice()))
    }

    fn hvals<K: ToRedisArgs, RV: FromRedisValue>(
        &mut self,
        key: K,
    ) -> (read: Result<RV, RedisError>) {
        let key = value_to_vec(&key);
        read_reply(hashes::hvals(self.engine_mut(), key.as_slice()))
    }

    fn hlen<K: ToRedisArgs, RV: FromRedisValue>(
        &mut self,
        key: K,
    ) -> (read: Result<RV, RedisError>) {
        let key = value_to_vec(&key);
        read_reply(hashes::hlen(self.engine_mut(), key.as_slice()))
    }

    fn hincr<K: ToRedisArgs, F: ToRedisArgs, D: ToRedisArgs, RV: FromRedisValue>(
        &mut self,
        key: K,
        field: F,
        delta: D,
    ) -> (read: Result<RV, RedisError>) {
        let key = value_to_vec(&key);
        match parse_i64(value_to_vec(&delta).as_slice()) {
            Some(n) => read_reply(
                hashes::hincr_by(self.engine_mut(), key.as_slice(), value_to_vec(&field), n),
            ),
            None => Err(RedisError::ParseError),
        }
    }

    fn hexists<K: ToRedisArgs, F: ToRedisArgs, RV: FromRedisValue>(
        &mut self,
        key: K,
        field: F,
    ) -> (read: Result<RV, RedisError>) {
        let key = value_to_vec(&key);
        let field = value_to_vec(&field);
        read_reply(hashes::hexists(self.engine_mut(), key.as_slice(), field.as_slice()))
    }

    fn lpush<K: ToRedisArgs, V: ToRedisArgs, RV: FromRedisValue>(
        &mut self,
        key: K,
        value: V,
    ) -> (read: Result<RV, RedisError>) {
        let key = value_to_vec(&key);
        let value = value_to_vec(&value);
        read_reply(lists::lpush(self.engine_mut(), key.as_slice(), value))
    }

    fn rpush<K: ToRedisArgs, V: ToRedisArgs, RV: FromRedisValue>(
        &mut self,
        key: K,
        value: V,
    ) -> (read: Result<RV, RedisError>) {
        let key = value_to_vec(&key);
        let value = value_to_vec(&value);
        read_reply(lists::rpush(self.engine_mut(), key.as_slice(), value))
    }

    fn lpop<K: ToRedisArgs, RV: FromRedisValue>(
        &mut self,
        key: K,
    ) -> (read: Result<RV, RedisError>) {
        let key = value_to_vec(&key);
        read_reply(lists::lpop(self.engine_mut(), key.as_slice()))
    }

    fn rpop<K: ToRedisArgs, RV: FromRedisValue>(
        &mut self,
        key: K,
    ) -> (read: Result<RV, RedisError>) {
        let key = value_to_vec(&key);
        read_reply(lists::rpop(self.engine_mut(), key.as_slice()))
    }

    fn llen<K: ToRedisArgs, RV: FromRedisValue>(
        &mut self,
        key: K,
    ) -> (read: Result<RV, RedisError>) {
        let key = value_to_vec(&key);
        read_reply(lists::llen(self.engine_mut(), key.as_slice()))
    }

    fn lrange<K: ToRedisArgs, RV: FromRedisValue>(
        &mut self,
        key: K,
        start: isize,
        stop: isize,
    ) -> (read: Result<RV, RedisError>) {
        let key = value_to_vec(&key);
        read_reply(lists::lrange(self.engine_mut(), key.as_slice(), start, stop))
    }

    fn lindex<K: ToRedisArgs, RV: FromRedisValue>(
        &mut self,
        key: K,
        index: isize,
    ) -> (read: Result<RV, RedisError>) {
        let key = value_to_vec(&key);
        read_reply(lists::lindex(self.engine_mut(), key.as_slice(), index))
    }

    fn sadd<K: ToRedisArgs, V: ToRedisArgs, RV: FromRedisValue>(
        &mut self,
        key: K,
        member: V,
    ) -> (read: Result<RV, RedisError>) {
        let key = value_to_vec(&key);
        let member = value_to_vec(&member);
        read_reply(sets::sadd(self.engine_mut(), key.as_slice(), member))
    }

    fn srem<K: ToRedisArgs, V: ToRedisArgs, RV: FromRedisValue>(
        &mut self,
        key: K,
        member: V,
    ) -> (read: Result<RV, RedisError>) {
        let key = value_to_vec(&key);
        let member = value_to_vec(&member);
        read_reply(sets::srem(self.engine_mut(), key.as_slice(), member.as_slice()))
    }

    fn smembers<K: ToRedisArgs, RV: FromRedisValue>(
        &mut self,
        key: K,
    ) -> (read: Result<RV, RedisError>) {
        let key = value_to_vec(&key);
        read_reply(sets::smembers(self.engine_mut(), key.as_slice()))
    }

    fn sismember<K: ToRedisArgs, V: ToRedisArgs, RV: FromRedisValue>(
        &mut self,
        key: K,
        member: V,
    ) -> (read: Result<RV, RedisError>) {
        let key = value_to_vec(&key);
        let member = value_to_vec(&member);
        read_reply(sets::sismember(self.engine_mut(), key.as_slice(), member.as_slice()))
    }

    fn scard<K: ToRedisArgs, RV: FromRedisValue>(
        &mut self,
        key: K,
    ) -> (read: Result<RV, RedisError>) {
        let key = value_to_vec(&key);
        read_reply(sets::scard(self.engine_mut(), key.as_slice()))
    }

    fn spop<K: ToRedisArgs, RV: FromRedisValue>(
        &mut self,
        key: K,
    ) -> (read: Result<RV, RedisError>) {
        let key = value_to_vec(&key);
        read_reply(sets::spop(self.engine_mut(), key.as_slice()))
    }

    fn zadd<K: ToRedisArgs, S: ToRedisArgs, V: ToRedisArgs, RV: FromRedisValue>(
        &mut self,
        key: K,
        score: S,
        member: V,
    ) -> (read: Result<RV, RedisError>) {
        let key = value_to_vec(&key);
        match parse_i64(value_to_vec(&score).as_slice()) {
            Some(n) => read_reply(
                zsets::zadd(self.engine_mut(), key.as_slice(), n, value_to_vec(&member)),
            ),
            None => Err(RedisError::ParseError),
        }
    }

    fn zrem<K: ToRedisArgs, V: ToRedisArgs, RV: FromRedisValue>(
        &mut self,
        key: K,
        member: V,
    ) -> (read: Result<RV, RedisError>) {
        let key = value_to_vec(&key);
        let member = value_to_vec(&member);
        read_reply(zsets::zrem(self.engine_mut(), key.as_slice(), member.as_slice()))
    }

    fn zrange<K: ToRedisArgs, RV: FromRedisValue>(
        &mut self,
        key: K,
        start: isize,
        stop: isize,
    ) -> (read: Result<RV, RedisError>) {
        let key = value_to_vec(&key);
        read_reply(zsets::zrange(self.engine_mut(), key.as_slice(), start, stop))
    }

    fn zrangebyscore<K: ToRedisArgs, RV: FromRedisValue>(
        &mut self,
        key: K,
        min: &str,
        max: &str,
    ) -> (read: Result<RV, RedisError>) {
        let key = value_to_vec(&key);
        let low = parse_score_bound(min.as_bytes());
        let high = parse_score_bound(max.as_bytes());
        match (low, high) {
            (Some(low), Some(high)) => read_reply(
                zsets::zrangebyscore(self.engine_mut(), key.as_slice(), low, high),
            ),
            _ => Err(RedisError::InvalidArgument("bound is not a number".to_owned())),
        }
    }

    fn zcard<K: ToRedisArgs, RV: FromRedisValue>(
        &mut self,
        key: K,
    ) -> (read: Result<RV, RedisError>) {
        let key = value_to_vec(&key);
        read_reply(zsets::zcard(self.engine_mut(), key.as_slice()))
    }

    fn zscore<K: ToRedisArgs, V: ToRedisArgs, RV: FromRedisValue>(
        &mut self,
        key: K,
        member: V,
    ) -> (read: Result<RV, RedisError>) {
        let key = value_to_vec(&key);
        let member = value_to_vec(&member);
        read_reply(zsets::zscore(self.engine_mut(), key.as_slice(), member.as_slice()))
    }

    fn zcount<K: ToRedisArgs, RV: FromRedisValue>(
        &mut self,
        key: K,
        min: &str,
        max: &str,
    ) -> (read: Result<RV, RedisError>) {
        let key = value_to_vec(&key);
        let low = parse_score_bound(min.as_bytes());
        let high = parse_score_bound(max.as_bytes());
        match (low, high) {
            (Some(low), Some(high)) => read_reply(
                zsets::zcount(self.engine_mut(), key.as_slice(), low, high),
            ),
            _ => Err(RedisError::InvalidArgument("bound is not a number".to_owned())),
        }
    }

    fn expire<K: ToRedisArgs>(&mut self, key: K, seconds: i64) -> (read: Result<bool, RedisError>) {
        let key = value_to_vec(&key);
        read_reply(keys::expire(self.engine_mut(), key.as_slice(), seconds))
    }

    fn expire_at<K: ToRedisArgs>(&mut self, key: K, ts: i64) -> (read: Result<bool, RedisError>) {
        let key = value_to_vec(&key);
        read_reply(keys::expire_at(self.engine_mut(), key.as_slice(), ts))
    }

    fn pexpire<K: ToRedisArgs>(&mut self, key: K, ms: i64) -> (read: Result<bool, RedisError>) {
        let key = value_to_vec(&key);
        read_reply(keys::pexpire(self.engine_mut(), key.as_slice(), ms))
    }

    fn pexpire_at<K: ToRedisArgs>(&mut self, key: K, ts: i64) -> (read: Result<bool, RedisError>) {
        let key = value_to_vec(&key);
        read_reply(keys::pexpire_at(self.engine_mut(), key.as_slice(), ts))
    }

    fn ttl<K: ToRedisArgs>(&mut self, key: K) -> (read: Result<IntegerReplyOrNoOp, RedisError>) {
        let key = value_to_vec(&key);
        match read_reply::<i64>(keys::ttl(self.engine_mut(), key.as_slice())) {
            Ok(n) => Ok(IntegerReplyOrNoOp::from_raw(n)),
            Err(e) => Err(e),
        }
    }

    fn pttl<K: ToRedisArgs>(&mut self, key: K) -> (read: Result<IntegerReplyOrNoOp, RedisError>) {
        let key = value_to_vec(&key);
        match read_reply::<i64>(keys::pttl(self.engine_mut(), key.as_slice())) {
            Ok(n) => Ok(IntegerReplyOrNoOp::from_raw(n)),
            Err(e) => Err(e),
        }
    }

    fn persist<K: ToRedisArgs>(&mut self, key: K) -> (read: Result<bool, RedisError>) {
        let key = value_to_vec(&key);
        read_reply(keys::persist(self.engine_mut(), key.as_slice()))
    }

    fn expire_time<K: ToRedisArgs>(
        &mut self,
        key: K,
    ) -> (read: Result<IntegerReplyOrNoOp, RedisError>) {
        let key = value_to_vec(&key);
        match read_reply::<i64>(keys::expire_time(self.engine_mut(), key.as_slice())) {
            Ok(n) => Ok(IntegerReplyOrNoOp::from_raw(n)),
            Err(e) => Err(e),
        }
    }

    fn setbit<K: ToRedisArgs>(
        &mut self,
        key: K,
        offset: usize,
        value: bool,
    ) -> (read: Result<bool, RedisError>) {
        let key = value_to_vec(&key);
        match read_reply::<i64>(strings::setbit(self.engine_mut(), key.as_slice(), offset, value)) {
            Ok(n) => Ok(n != 0),
            Err(e) => Err(e),
        }
    }

    fn getbit<K: ToRedisArgs>(
        &mut self,
        key: K,
        offset: usize,
    ) -> (read: Result<bool, RedisError>) {
        let key = value_to_vec(&key);
        match read_reply::<i64>(strings::getbit(self.engine_mut(), key.as_slice(), offset)) {
            Ok(n) => Ok(n != 0),
            Err(e) => Err(e),
        }
    }

    fn bitcount<K: ToRedisArgs>(&mut self, key: K) -> (read: Result<usize, RedisError>) {
        let key = value_to_vec(&key);
        read_reply(strings::bitcount(self.engine_mut(), key.as_slice()))
    }

    fn bitcount_range<K: ToRedisArgs>(
        &mut self,
        key: K,
        start: usize,
        end: usize,
    ) -> (read: Result<usize, RedisError>) {
        let key = value_to_vec(&key);
        if start > isize::MAX as usize || end > isize::MAX as usize {
            return Err(RedisError::InvalidArgument("position is out of range".to_owned()));
        }
        read_reply(
            strings::bitcount_range(
                self.engine_mut(),
                key.as_slice(),
                start as isize,
                end as isize,
            ),
        )
    }

    fn bit_and<D: ToRedisArgs, S: ToRedisArgs, RV: FromRedisValue>(
        &mut self,
        dstkey: D,
        srckeys: S,
    ) -> (read: Result<RV, RedisError>) {
        Err(RedisError::NotSupported)
    }

    fn bit_or<D: ToRedisArgs, S: ToRedisArgs, RV: FromRedisValue>(
        &mut self,
        dstkey: D,
        srckeys: S,
    ) -> (read: Result<RV, RedisError>) {
        Err(RedisError::NotSupported)
    }

    fn bit_xor<D: ToRedisArgs, S: ToRedisArgs, RV: FromRedisValue>(
        &mut self,
        dstkey: D,
        srckeys: S,
    ) -> (read: Result<RV, RedisError>) {
        Err(RedisError::NotSupported)
    }

    fn bit_not<D: ToRedisArgs, S: ToRedisArgs, RV: FromRedisValue>(
        &mut self,
        dstkey: D,
        srckey: S,
    ) -> (read: Result<RV, RedisError>) {
        Err(RedisError::NotSupported)
    }

    fn keys<K: ToRedisArgs, RV: FromRedisValue>(
        &mut self,
        key: K,
    ) -> (read: Result<RV, RedisError>) {
        let pattern = value_to_vec(&key);
        let ghost before = self@;
        match keys::keys(self.engine_mut(), pattern.as_slice()) {
            Ok(v) => {
                let ghost found = choose|found: Seq<Seq<u8>>|
                    {
                        &&& v@ == ValueView::Array(strings_of(found))
                        &&& found.no_duplicates()
                        &&& found.to_set() == keys::matching_keys(before.swept(), pattern@)
                    };
                let read = RV::from_redis_value(v);
                assert(reads_as::<RV>(read, Ok(ValueView::Array(strings_of(found)))));
                read
            },
            Err(e) => Err(e),
        }
    }

    fn key_type<K: ToRedisArgs, RV: FromRedisValue>(
        &mut self,
        key: K,
    ) -> (read: Result<RV, RedisError>) {
        let key = value_to_vec(&key);
        read_reply(keys::key_type(self.engine_mut(), key.as_slice()))
    }

    fn rename<K: ToRedisArgs, N: ToRedisArgs, RV: FromRedisValue>(
        &mut self,
        key: K,
        new_key: N,
    ) -> (read: Result<RV, RedisError>) {
        let key = value_to_vec(&key);
        let new_key = value_to_vec(&new_key);
        read_reply(keys::rename(self.engine_mut(), key.as_slice(), new_key.as_slice()))
    }

    fn rename_nx<K: ToRedisArgs, N: ToRedisArgs, RV: FromRedisValue>(
        &mut self,
        key: K,
        new_key: N,
    ) -> (read: Result<RV, RedisError>) {
        let key = value_to_vec(&key);
        let new_key = value_to_vec(&new_key);
        read_reply(keys::rename_nx(self.engine_mut(), key.as_slice(), new_key.as_slice()))
    }

    fn unlink<K: ToRedisArgs, RV: FromRedisValue>(
        &mut self,
        key: K,
    ) -> (read: Result<RV, RedisError>) {
        let key = value_to_vec(&key);
        read_reply(keys::unlink(self.engine_mut(), key.as_slice()))
    }

    fn copy<KSrc: ToRedisArgs, KDst: ToRedisArgs, Db: ToRedisArgs, RV: FromRedisValue>(
        &mut self,
        source: KSrc,
        destination: KDst,
        options: CopyOptions<Db>,
    ) -> (read: Result<RV, RedisError>) {
        let source = value_to_vec(&source);
        let destination = value_to_vec(&destination);
        read_reply(keys::copy(self.engine_mut(), source.as_slice(), destination.as_slice()))
    }

    fn ping<RV: FromRedisValue>(&mut self) -> (read: Result<RV, RedisError>) {
        read_reply(server::ping(self.engine_mut()))
    }

    fn echo<K: ToRedisArgs, RV: FromRedisValue>(
        &mut self,
        msg: K,
    ) -> (read: Result<RV, RedisError>) {
        let message = value_to_vec(&msg);
        read_reply(server::echo(self.engine_mut(), message.as_slice()))
    }

    fn flushdb<RV: FromRedisValue>(&mut self) -> (read: Result<RV, RedisError>) {
        read_reply(server::flushdb(self.engine_mut()))
    }

    fn flushall<RV: FromRedisValue>(&mut self) -> (read: Result<RV, RedisError>) {
        read_reply(server::flushall(self.engine_mut()))
    }

    fn dbsize<RV: FromRedisValue>(&mut self) -> (read: Result<RV, RedisError>) {
        read_reply(server::dbsize(self.engine_mut()))
    }

    fn lastsave<RV: FromRedisValue>(&mut self) -> (read: Result<RV, RedisError>) {
        read_reply(server::lastsave(self.engine_mut()))
    }

    fn time<RV: FromRedisValue>(&mut self) -> (read: Result<RV, RedisError>) {
        read_reply(server::time(self.engine_mut()))
    }
}

} // verus!
