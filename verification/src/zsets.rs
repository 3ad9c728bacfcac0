//! Operations on sorted-set values.

use vstd::prelude::*;
use crate::bytes::bytes_eq;
use crate::engine::StorageEngine;
use crate::error::RedisError;
use crate::model::entry_of;
use crate::numbers::{parse_i64, parse_i64_spec};
use crate::ops::{ErrorKind, Outcome, answer, answers, failure, lemma_purge_settles, store};
use crate::range::slice_of;
use crate::sets::{flag, flag_value};
use crate::sorted_set::{ScoreBound, SortedSet, has_member, member_score, members_of, scored_between,
    with_score, without_member};
use crate::strings::deadline_of;
use crate::types::{RedisData, RedisDataView, StoredValueView, list_view};
use crate::value::{Value, ValueView, strings_of};

verus! {

/// The scored members of a live sorted-set entry; none if there is no
/// entry. `None` if the entry is not a sorted set.
pub open spec fn zset_of(cur: Option<StoredValueView>) -> Option<Seq<(i64, Seq<u8>)>> {
    match cur {
        None => Some(Seq::empty()),
        Some(entry) => match entry.data {
            RedisDataView::ZSet(items) => Some(items),
            _ => None,
        },
    }
}

/// `ZADD`: `member` is given `score`; the answer says whether the member
/// is new.
pub open spec fn zadd_outcome(
    cur: Option<StoredValueView>,
    score: i64,
    member: Seq<u8>,
) -> Outcome {
    match zset_of(cur) {
        Some(items) => store(
            entry_of(RedisDataView::ZSet(with_score(items, member, score)), deadline_of(cur)),
            flag(!has_member(items, member)),
        ),
        None => failure(ErrorKind::WrongType),
    }
}

/// `ZREM`: `member` leaves the sorted set if it belongs to it; the
/// answer says whether it did.
pub open spec fn zrem_outcome(cur: Option<StoredValueView>, member: Seq<u8>) -> Outcome {
    match zset_of(cur) {
        Some(items) => if has_member(items, member) {
            store(
                entry_of(RedisDataView::ZSet(without_member(items, member)), deadline_of(cur)),
                flag(true),
            )
        } else {
            answer(flag(false))
        },
        None => failure(ErrorKind::WrongType),
    }
}

/// `ZRANGE`: the members ranked `start` to `stop`, both included, by
/// ascending score and, among equal scores, ascending member bytes.
pub open spec fn zrange_reply(cur: Option<StoredValueView>, start: int, stop: int) -> Result<
    ValueView,
    ErrorKind,
> {
    match zset_of(cur) {
        Some(items) => Ok(ValueView::Array(strings_of(slice_of(members_of(items), start, stop)))),
        None => Err(ErrorKind::WrongType),
    }
}

/// `ZRANGEBYSCORE`: the members whose score lies between `min` and
/// `max`, in rank order. Bounds that cross are an invalid argument.
pub open spec fn zrangebyscore_reply(
    cur: Option<StoredValueView>,
    min: ScoreBound,
    max: ScoreBound,
) -> Result<ValueView, ErrorKind> {
    match zset_of(cur) {
        Some(items) => if min.level() > max.level() {
            Err(ErrorKind::InvalidArgument)
        } else {
            Ok(ValueView::Array(strings_of(members_of(scored_between(items, min, max)))))
        },
        None => Err(ErrorKind::WrongType),
    }
}

/// `ZCOUNT`: the number of members whose score lies between `min` and
/// `max`. Bounds that cross are an invalid argument.
pub open spec fn zcount_reply(
    cur: Option<StoredValueView>,
    min: ScoreBound,
    max: ScoreBound,
) -> Result<
    ValueView,
    ErrorKind,
> {
    match zset_of(cur) {
        Some(items) => if min.level() > max.level() {
            Err(ErrorKind::InvalidArgument)
        } else {
            Ok(ValueView::Int(scored_between(items, min, max).len() as i64))
        },
        None => Err(ErrorKind::WrongType),
    }
}

/// `ZCARD`: the number of members.
pub open spec fn zcard_reply(cur: Option<StoredValueView>) -> Result<ValueView, ErrorKind> {
    match zset_of(cur) {
        Some(items) => Ok(ValueView::Int(items.len() as i64)),
        None => Err(ErrorKind::WrongType),
    }
}

/// `ZSCORE`: the score of `member`, nothing if it is not a member.
pub open spec fn zscore_reply(cur: Option<StoredValueView>, member: Seq<u8>) -> Result<
    ValueView,
    ErrorKind,
> {
    match zset_of(cur) {
        Some(items) => Ok(
            match member_score(items, member) {
                Some(score) => ValueView::Int(score),
                None => ValueView::Null,
            },
        ),
        None => Err(ErrorKind::WrongType),
    }
}

/// The bound that `text` denotes: `-inf`, `+inf` or `inf`, a number, or a
/// number after `(` for a bound that leaves the number itself out.
pub open spec fn score_bound_of(text: Seq<u8>) -> Option<ScoreBound> {
    if text == seq![45u8, 105u8, 110u8, 102u8] {
        Some(ScoreBound::NegInf)
    } else if text == seq![43u8, 105u8, 110u8, 102u8] || text == seq![105u8, 110u8, 102u8] {
        Some(ScoreBound::PosInf)
    } else if text.len() > 0 && text[0] == 40u8 {
        match parse_i64_spec(text.skip(1)) {
            Some(v) => Some(ScoreBound::Excl(v)),
            None => None,
        }
    } else {
        match parse_i64_spec(text) {
            Some(v) => Some(ScoreBound::Incl(v)),
            None => None,
        }
    }
}

/// A copy of `src` without its first byte.
fn tail_of(src: &[u8]) -> (out: Vec<u8>)
    requires
        src.len() > 0,
    ensures
        out@ == src@.skip(1),
{
    let out = crate::strings::copy_range(src, 1, src.len());
    assert(src@.subrange(1, src@.len() as int) =~= src@.skip(1));
    out
}

/// Reads one end of a score interval.
pub fn parse_score_bound(text: &[u8]) -> (bound: Option<ScoreBound>)
    ensures
        bound == score_bound_of(text@),
{
    let mut neg: Vec<u8> = Vec::new();
    neg.push(45u8);
    neg.push(105u8);
    neg.push(110u8);
    neg.push(102u8);
    assert(neg@ =~= seq![45u8, 105u8, 110u8, 102u8]);
    let mut pos: Vec<u8> = Vec::new();
    pos.push(43u8);
    pos.push(105u8);
    pos.push(110u8);
    pos.push(102u8);
    assert(pos@ =~= seq![43u8, 105u8, 110u8, 102u8]);
    let mut bare: Vec<u8> = Vec::new();
    bare.push(105u8);
    bare.push(110u8);
    bare.push(102u8);
    assert(bare@ =~= seq![105u8, 110u8, 102u8]);
    if bytes_eq(text, neg.as_slice()) {
        Some(ScoreBound::NegInf)
    } else if bytes_eq(text, pos.as_slice()) || bytes_eq(text, bare.as_slice()) {
        Some(ScoreBound::PosInf)
    } else if text.len() > 0 && text[0] == 40u8 {
        let rest = tail_of(text);
        match parse_i64(rest.as_slice()) {
            Some(v) => Some(ScoreBound::Excl(v)),
            None => None,
        }
    } else {
        match parse_i64(text) {
            Some(v) => Some(ScoreBound::Incl(v)),
            None => None,
        }
    }
}

/// The live sorted set under `key` with its deadline, an empty one if
/// the key is absent; `WrongType` if the key holds something else. An
/// entry past its deadline is purged.
fn take_zset(engine: &mut StorageEngine, key: &[u8]) -> (found: Result<
    (SortedSet, Option<u64>),
    RedisError,
>)
    requires
        old(engine).wf(),
    ensures
        final(engine).wf(),
        final(engine)@ == old(engine)@.purge(key@),
        match found {
            Ok(pair) => zset_of(old(engine)@.live(key@)) == Some(pair.0@) && pair.0.wf() && pair.1
                == deadline_of(old(engine)@.live(key@)),
            Err(e) => zset_of(old(engine)@.live(key@)) is None && e is WrongType,
        },
{
    match engine.peek(key) {
        None => Ok((SortedSet::new(), None)),
        Some(entry) => match entry.data {
            RedisData::ZSet(set) => Ok((set, entry.expire_at)),
            _ => Err(RedisError::WrongType),
        },
    }
}

/// The live sorted set under `key`, read.
fn read_zset(engine: &mut StorageEngine, key: &[u8]) -> (found: Result<SortedSet, RedisError>)
    requires
        old(engine).wf(),
    ensures
        final(engine).wf(),
        final(engine)@ == old(engine)@.queried(key@),
        match found {
            Ok(set) => zset_of(old(engine)@.live(key@)) == Some(set@) && set.wf(),
            Err(e) => zset_of(old(engine)@.live(key@)) is None && e is WrongType,
        },
{
    match engine.get(key) {
        None => Ok(SortedSet::new()),
        Some(entry) => match entry.data {
            RedisData::ZSet(set) => Ok(set),
            _ => Err(RedisError::WrongType),
        },
    }
}

/// `ZADD key score member`.
pub fn zadd(engine: &mut StorageEngine, key: &[u8], score: i64, member: Vec<u8>) -> (given: Result<
    Value,
    RedisError,
>)
    requires
        old(engine).wf(),
    ensures
        final(engine).wf(),
        final(engine)@ == old(engine)@.after(
            key@,
            zadd_outcome(old(engine)@.live(key@), score, member@),
        ),
        answers(
            given,
            old(engine)@.reply_to(key@, zadd_outcome(old(engine)@.live(key@), score, member@)),
        ),
{
    proof {
        lemma_purge_settles(engine@, key@);
    }
    match take_zset(engine, key) {
        Err(e) => Err(e),
        Ok((mut set, expire_at)) => {
            let added = set.insert(member, score);
            engine.store(key, RedisData::ZSet(set), expire_at, flag_value(added))
        },
    }
}

/// `ZREM key member`.
pub fn zrem(engine: &mut StorageEngine, key: &[u8], member: &[u8]) -> (given: Result<
    Value,
    RedisError,
>)
    requires
        old(engine).wf(),
    ensures
        final(engine).wf(),
        final(engine)@ == old(engine)@.after(key@, zrem_outcome(old(engine)@.live(key@), member@)),
        answers(
            given,
            old(engine)@.reply_to(key@, zrem_outcome(old(engine)@.live(key@), member@)),
        ),
{
    proof {
        lemma_purge_settles(engine@, key@);
    }
    match take_zset(engine, key) {
        Err(e) => Err(e),
        Ok((mut set, expire_at)) => {
            if set.remove(member) {
                engine.store(key, RedisData::ZSet(set), expire_at, Value::Int(1))
            } else {
                Ok(Value::Int(0))
            }
        },
    }
}

/// `ZRANGE key start stop`.
pub fn zrange(engine: &mut StorageEngine, key: &[u8], start: isize, stop: isize) -> (given: Result<
    Value,
    RedisError,
>)
    requires
        old(engine).wf(),
    ensures
        final(engine).wf(),
        final(engine)@ == old(engine)@.queried(key@),
        answers(given, zrange_reply(old(engine)@.live(key@), start as int, stop as int)),
{
    match read_zset(engine, key) {
        Err(e) => Err(e),
        Ok(set) => {
            let members = set.range(start, stop);
            assert(list_view(members@) =~= slice_of(members_of(set@), start as int, stop as int));
            Ok(Value::strings(members))
        },
    }
}

/// `ZRANGEBYSCORE key min max`.
pub fn zrangebyscore(
    engine: &mut StorageEngine,
    key: &[u8],
    min: ScoreBound,
    max: ScoreBound,
) -> (given:
    Result<Value, RedisError>)
    requires
        old(engine).wf(),
    ensures
        final(engine).wf(),
        final(engine)@ == old(engine)@.queried(key@),
        answers(given, zrangebyscore_reply(old(engine)@.live(key@), min, max)),
{
    match read_zset(engine, key) {
        Err(e) => Err(e),
        Ok(set) => {
            if min.is_above(&max) {
                return Err(RedisError::InvalidArgument("min is above max".to_owned()));
            }
            let members = set.range_by_score(&min, &max);
            assert(list_view(members@) =~= members_of(scored_between(set@, min, max)));
            Ok(Value::strings(members))
        },
    }
}

/// `ZCOUNT key min max`.
pub fn zcount(engine: &mut StorageEngine, key: &[u8], min: ScoreBound, max: ScoreBound) -> (given:
    Result<Value, RedisError>)
    requires
        old(engine).wf(),
    ensures
        final(engine).wf(),
        final(engine)@ == old(engine)@.queried(key@),
        answers(given, zcount_reply(old(engine)@.live(key@), min, max)),
{
    match read_zset(engine, key) {
        Err(e) => Err(e),
        Ok(set) => {
            if min.is_above(&max) {
                return Err(RedisError::InvalidArgument("min is above max".to_owned()));
            }
            Ok(Value::Int(set.count_by_score(&min, &max) as i64))
        },
    }
}

/// `ZCARD key`.
pub fn zcard(engine: &mut StorageEngine, key: &[u8]) -> (given: Result<Value, RedisError>)
    requires
        old(engine).wf(),
    ensures
        final(engine).wf(),
        final(engine)@ == old(engine)@.queried(key@),
        answers(given, zcard_reply(old(engine)@.live(key@))),
{
    match read_zset(engine, key) {
        Err(e) => Err(e),
        Ok(set) => Ok(Value::Int(set.len() as i64)),
    }
}

/// `ZSCORE key member`.
pub fn zscore(engine: &mut StorageEngine, key: &[u8], member: &[u8]) -> (given: Result<
    Value,
    RedisError,
>)
    requires
        old(engine).wf(),
    ensures
        final(engine).wf(),
        final(engine)@ == old(engine)@.queried(key@),
        answers(given, zscore_reply(old(engine)@.live(key@), member@)),
{
    match read_zset(engine, key) {
        Err(e) => Err(e),
        Ok(set) => match set.score(member) {
            Some(score) => Ok(Value::Int(score)),
            None => Ok(Value::Null),
        },
    }
}

} // verus!
