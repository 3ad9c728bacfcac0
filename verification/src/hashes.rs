//! Operations on hash values.

use vstd::prelude::*;
use crate::engine::StorageEngine;
use crate::error::RedisError;
use crate::field_map::{FieldMap, field_value, has_field, with_field, without_field};
use crate::model::entry_of;
use crate::numbers::{decimal, format_i64, parse_i64, parse_i64_spec};
use crate::ops::{ErrorKind, Outcome, answer, answers, failure, lemma_purge_settles, store};
use crate::sets::{flag, flag_value};
use crate::strings::deadline_of;
use crate::types::{RedisData, RedisDataView, StoredValueView, list_view};
use crate::value::{Value, ValueView, views_of};

verus! {

/// The pairs of a live hash entry; none if there is no entry. `None` if
/// the entry is not a hash.
pub open spec fn hash_of(cur: Option<StoredValueView>) -> Option<Seq<(Seq<u8>, Seq<u8>)>> {
    match cur {
        None => Some(Seq::empty()),
        Some(entry) => match entry.data {
            RedisDataView::Hash(pairs) => Some(pairs),
            _ => None,
        },
    }
}

/// A string reply for a value that is there, nothing for one that is not.
pub open spec fn optional(value: Option<Seq<u8>>) -> ValueView {
    match value {
        Some(bytes) => ValueView::String(bytes),
        None => ValueView::Null,
    }
}

/// Field names and values in turn: field, value, field, value, ...
pub open spec fn flat_pairs(pairs: Seq<(Seq<u8>, Seq<u8>)>) -> Seq<ValueView> {
    Seq::new(
        2 * pairs.len(),
        |i: int|
            if i % 2 == 0 {
                ValueView::String(pairs[i / 2].0)
            } else {
                ValueView::String(pairs[i / 2].1)
            },
    )
}

/// The field names, in order.
pub open spec fn field_names(pairs: Seq<(Seq<u8>, Seq<u8>)>) -> Seq<ValueView> {
    Seq::new(pairs.len(), |i: int| ValueView::String(pairs[i].0))
}

/// The values, in the order of their fields.
pub open spec fn field_values(pairs: Seq<(Seq<u8>, Seq<u8>)>) -> Seq<ValueView> {
    Seq::new(pairs.len(), |i: int| ValueView::String(pairs[i].1))
}

/// `HSET`: `value` is stored under `field`; the answer says whether the
/// field is new.
pub open spec fn hset_outcome(
    cur: Option<StoredValueView>,
    field: Seq<u8>,
    value: Seq<u8>,
) -> Outcome {
    match hash_of(cur) {
        Some(pairs) => store(
            entry_of(RedisDataView::Hash(with_field(pairs, field, value)), deadline_of(cur)),
            flag(!has_field(pairs, field)),
        ),
        None => failure(ErrorKind::WrongType),
    }
}

/// `HDEL`: `field` leaves the hash if it is there; the answer says
/// whether it was.
pub open spec fn hdel_outcome(cur: Option<StoredValueView>, field: Seq<u8>) -> Outcome {
    match hash_of(cur) {
        Some(pairs) => if has_field(pairs, field) {
            store(
                entry_of(RedisDataView::Hash(without_field(pairs, field)), deadline_of(cur)),
                flag(true),
            )
        } else {
            answer(flag(false))
        },
        None => failure(ErrorKind::WrongType),
    }
}

/// `HINCRBY`: the number stored under `field` grows by `delta`; a field
/// that is not there counts as zero.
pub open spec fn hincr_outcome(
    cur: Option<StoredValueView>,
    field: Seq<u8>,
    delta: i64,
) -> Outcome {
    match hash_of(cur) {
        Some(pairs) => {
            let held = match field_value(pairs, field) {
                Some(bytes) => parse_i64_spec(bytes),
                None => Some(0i64),
            };
            match held {
                Some(n) => if i64::MIN <= n + delta <= i64::MAX {
                    store(
                        entry_of(
                            RedisDataView::Hash(with_field(pairs, field, decimal(n + delta))),
                            deadline_of(cur),
                        ),
                        ValueView::Int((n + delta) as i64),
                    )
                } else {
                    failure(ErrorKind::InvalidArgument)
                },
                None => failure(ErrorKind::ParseError),
            }
        },
        None => failure(ErrorKind::WrongType),
    }
}

/// `HGET`: the value stored under `field`, nothing if there is none.
pub open spec fn hget_reply(cur: Option<StoredValueView>, field: Seq<u8>) -> Result<
    ValueView,
    ErrorKind,
> {
    match hash_of(cur) {
        Some(pairs) => Ok(optional(field_value(pairs, field))),
        None => Err(ErrorKind::WrongType),
    }
}

/// `HMGET`: for each field, the value stored under it or nothing.
pub open spec fn hmget_reply(cur: Option<StoredValueView>, fields: Seq<Seq<u8>>) -> Result<
    ValueView,
    ErrorKind,
> {
    match hash_of(cur) {
        Some(pairs) => Ok(
            ValueView::Array(
                Seq::new(fields.len(), |i: int| optional(field_value(pairs, fields[i]))),
            ),
        ),
        None => Err(ErrorKind::WrongType),
    }
}

/// `HGETALL`: field names and values in turn.
pub open spec fn hgetall_reply(cur: Option<StoredValueView>) -> Result<ValueView, ErrorKind> {
    match hash_of(cur) {
        Some(pairs) => Ok(ValueView::Array(flat_pairs(pairs))),
        None => Err(ErrorKind::WrongType),
    }
}

/// `HKEYS`: the field names.
pub open spec fn hkeys_reply(cur: Option<StoredValueView>) -> Result<ValueView, ErrorKind> {
    match hash_of(cur) {
        Some(pairs) => Ok(ValueView::Array(field_names(pairs))),
        None => Err(ErrorKind::WrongType),
    }
}

/// `HVALS`: the values.
pub open spec fn hvals_reply(cur: Option<StoredValueView>) -> Result<ValueView, ErrorKind> {
    match hash_of(cur) {
        Some(pairs) => Ok(ValueView::Array(field_values(pairs))),
        None => Err(ErrorKind::WrongType),
    }
}

/// `HLEN`: the number of fields.
pub open spec fn hlen_reply(cur: Option<StoredValueView>) -> Result<ValueView, ErrorKind> {
    match hash_of(cur) {
        Some(pairs) => Ok(ValueView::Int(pairs.len() as i64)),
        None => Err(ErrorKind::WrongType),
    }
}

/// `HEXISTS`: whether `field` is there.
pub open spec fn hexists_reply(cur: Option<StoredValueView>, field: Seq<u8>) -> Result<
    ValueView,
    ErrorKind,
> {
    match hash_of(cur) {
        Some(pairs) => Ok(flag(has_field(pairs, field))),
        None => Err(ErrorKind::WrongType),
    }
}

/// The live hash under `key` with its deadline, an empty hash if the key
/// is absent; `WrongType` if the key holds something else. An entry
/// past its deadline is purged.
fn take_hash(engine: &mut StorageEngine, key: &[u8]) -> (found: Result<
    (FieldMap, Option<u64>),
    RedisError,
>)
    requires
        old(engine).wf(),
    ensures
        final(engine).wf(),
        final(engine)@ == old(engine)@.purge(key@),
        match found {
            Ok(pair) => hash_of(old(engine)@.live(key@)) == Some(pair.0@) && pair.0.wf() && pair.1
                == deadline_of(old(engine)@.live(key@)),
            Err(e) => hash_of(old(engine)@.live(key@)) is None && e is WrongType,
        },
{
    match engine.peek(key) {
        None => Ok((FieldMap::new(), None)),
        Some(entry) => match entry.data {
            RedisData::Hash(map) => Ok((map, entry.expire_at)),
            _ => Err(RedisError::WrongType),
        },
    }
}

/// The live hash under `key`, read.
fn read_hash(engine: &mut StorageEngine, key: &[u8]) -> (found: Result<FieldMap, RedisError>)
    requires
        old(engine).wf(),
    ensures
        final(engine).wf(),
        final(engine)@ == old(engine)@.queried(key@),
        match found {
            Ok(map) => hash_of(old(engine)@.live(key@)) == Some(map@) && map.wf(),
            Err(e) => hash_of(old(engine)@.live(key@)) is None && e is WrongType,
        },
{
    match engine.get(key) {
        None => Ok(FieldMap::new()),
        Some(entry) => match entry.data {
            RedisData::Hash(map) => Ok(map),
            _ => Err(RedisError::WrongType),
        },
    }
}

/// `HSET key field value`.
pub fn hset(engine: &mut StorageEngine, key: &[u8], field: Vec<u8>, value: Vec<u8>) -> (given:
    Result<Value, RedisError>)
    requires
        old(engine).wf(),
    ensures
        final(engine).wf(),
        final(engine)@ == old(engine)@.after(
            key@,
            hset_outcome(old(engine)@.live(key@), field@, value@),
        ),
        answers(
            given,
            old(engine)@.reply_to(key@, hset_outcome(old(engine)@.live(key@), field@, value@)),
        ),
{
    proof {
        lemma_purge_settles(engine@, key@);
    }
    match take_hash(engine, key) {
        Err(e) => Err(e),
        Ok((mut map, expire_at)) => {
            let created = map.insert(field, value);
            engine.store(key, RedisData::Hash(map), expire_at, flag_value(created))
        },
    }
}

/// `HDEL key field`.
pub fn hdel(engine: &mut StorageEngine, key: &[u8], field: &[u8]) -> (given: Result<
    Value,
    RedisError,
>)
    requires
        old(engine).wf(),
    ensures
        final(engine).wf(),
        final(engine)@ == old(engine)@.after(key@, hdel_outcome(old(engine)@.live(key@), field@)),
        answers(given, old(engine)@.reply_to(key@, hdel_outcome(old(engine)@.live(key@), field@))),
{
    proof {
        lemma_purge_settles(engine@, key@);
    }
    match take_hash(engine, key) {
        Err(e) => Err(e),
        Ok((mut map, expire_at)) => {
            if map.remove(field) {
                engine.store(key, RedisData::Hash(map), expire_at, Value::Int(1))
            } else {
                Ok(Value::Int(0))
            }
        },
    }
}

/// `HINCRBY key field delta`: answers the new number.
pub fn hincr_by(engine: &mut StorageEngine, key: &[u8], field: Vec<u8>, delta: i64) -> (given:
    Result<Value, RedisError>)
    requires
        old(engine).wf(),
    ensures
        final(engine).wf(),
        final(engine)@ == old(engine)@.after(
            key@,
            hincr_outcome(old(engine)@.live(key@), field@, delta),
        ),
        answers(
            given,
            old(engine)@.reply_to(key@, hincr_outcome(old(engine)@.live(key@), field@, delta)),
        ),
{
    proof {
        lemma_purge_settles(engine@, key@);
    }
    match take_hash(engine, key) {
        Err(e) => Err(e),
        Ok((mut map, expire_at)) => {
            let held = match map.get(field.as_slice()) {
                Some(bytes) => parse_i64(bytes.as_slice()),
                None => Some(0i64),
            };
            match held {
                None => Err(RedisError::ParseError),
                Some(n) => match n.checked_add(delta) {
                    None => Err(RedisError::InvalidArgument("value would overflow".to_owned())),
                    Some(sum) => {
                        map.insert(field, format_i64(sum));
                        engine.store(key, RedisData::Hash(map), expire_at, Value::Int(sum))
                    },
                },
            }
        },
    }
}

/// A string reply for a value that is there, nothing for one that is not.
fn optional_value(value: Option<Vec<u8>>) -> (v: Value)
    ensures
        v@ == optional(
            match value {
                Some(b) => Some(b@),
                None => None,
            },
        ),
{
    match value {
        Some(bytes) => Value::String(bytes),
        None => Value::Null,
    }
}

/// `HGET key field`.
pub fn hget(engine: &mut StorageEngine, key: &[u8], field: &[u8]) -> (given: Result<
    Value,
    RedisError,
>)
    requires
        old(engine).wf(),
    ensures
        final(engine).wf(),
        final(engine)@ == old(engine)@.queried(key@),
        answers(given, hget_reply(old(engine)@.live(key@), field@)),
{
    match read_hash(engine, key) {
        Err(e) => Err(e),
        Ok(map) => Ok(optional_value(map.get(field))),
    }
}

/// `HMGET key field...`.
pub fn hmget(engine: &mut StorageEngine, key: &[u8], fields: &Vec<Vec<u8>>) -> (given: Result<
    Value,
    RedisError,
>)
    requires
        old(engine).wf(),
    ensures
        final(engine).wf(),
        final(engine)@ == old(engine)@.queried(key@),
        answers(given, hmget_reply(old(engine)@.live(key@), list_view(fields@))),
{
    match read_hash(engine, key) {
        Err(e) => Err(e),
        Ok(map) => {
            let ghost pairs = map@;
            let ghost names = list_view(fields@);
            let mut out: Vec<Value> = Vec::new();
            let mut i: usize = 0;
            while i < fields.len()
                invariant
                    i <= fields.len(),
                    map.wf(),
                    pairs == map@,
                    names == list_view(fields@),
                    out@.len() == i,
                    forall|j: int|
                        0 <= j < i ==> (#[trigger] out@[j])@ == optional(
                            field_value(pairs, names[j]),
                        ),
                decreases fields.len() - i,
            {
                let item = optional_value(map.get(fields[i].as_slice()));
                out.push(item);
                i += 1;
            }
            assert(views_of(out@) =~= Seq::new(
                names.len(),
                |i: int| optional(field_value(pairs, names[i])),
            ));
            Ok(Value::array(out))
        },
    }
}

/// `HGETALL key`.
pub fn hgetall(engine: &mut StorageEngine, key: &[u8]) -> (given: Result<Value, RedisError>)
    requires
        old(engine).wf(),
    ensures
        final(engine).wf(),
        final(engine)@ == old(engine)@.queried(key@),
        answers(given, hgetall_reply(old(engine)@.live(key@))),
{
    match read_hash(engine, key) {
        Err(e) => Err(e),
        Ok(map) => {
            let ghost all = map@;
            let mut pairs = map.pairs();
            let mut turned: Vec<(Vec<u8>, Vec<u8>)> = Vec::new();
            while pairs.len() > 0
                invariant
                    pairs@.len() + turned@.len() == all.len(),
                    forall|j: int|
                        0 <= j < pairs@.len() ==> ((#[trigger] pairs@[j]).0@, pairs@[j].1@)
                            == all[j],
                    forall|j: int|
                        0 <= j < turned@.len() ==> ((#[trigger] turned@[j]).0@, turned@[j].1@)
                            == all[all.len() - 1 - j],
                decreases pairs@.len(),
            {
                match pairs.pop() {
                    Some(pair) => {
                        turned.push(pair);
                    },
                    None => {},
                }
            }
            let mut out: Vec<Value> = Vec::new();
            while turned.len() > 0
                invariant
                    out@.len() == 2 * (all.len() - turned@.len()),
                    turned@.len() <= all.len(),
                    forall|j: int|
                        0 <= j < turned@.len() ==> ((#[trigger] turned@[j]).0@, turned@[j].1@)
                            == all[all.len() - 1 - j],
                    forall|j: int|
                        0 <= j < out@.len() ==> (#[trigger] out@[j])@ == flat_pairs(all)[j],
                decreases turned@.len(),
            {
                match turned.pop() {
                    Some(pair) => {
                        let ghost at = all.len() - 1 - turned@.len();
                        assert((pair.0@, pair.1@) == all[at]);
                        assert(out@.len() == 2 * at);
                        out.push(Value::String(pair.0));
                        out.push(Value::String(pair.1));
                    },
                    None => {},
                }
            }
            assert(views_of(out@) =~= flat_pairs(all));
            Ok(Value::array(out))
        },
    }
}

/// The pairs of a hash, with a choice of what to keep of each.
fn project(map: &FieldMap, names: bool) -> (v: Value)
    ensures
        v@ == ValueView::Array(
            if names {
                field_names(map@)
            } else {
                field_values(map@)
            },
        ),
{
    let ghost all = map@;
    let mut pairs = map.pairs();
    let mut turned: Vec<Value> = Vec::new();
    while pairs.len() > 0
        invariant
            pairs@.len() + turned@.len() == all.len(),
            forall|j: int|
                0 <= j < pairs@.len() ==> ((#[trigger] pairs@[j]).0@, pairs@[j].1@) == all[j],
            forall|j: int|
                0 <= j < turned@.len() ==> (#[trigger] turned@[j])@ == ValueView::String(
                    if names {
                        all[all.len() - 1 - j].0
                    } else {
                        all[all.len() - 1 - j].1
                    },
                ),
        decreases pairs@.len(),
    {
        match pairs.pop() {
            Some(pair) => {
                assert((pair.0@, pair.1@) == all[pairs@.len() as int]);
                if names {
                    turned.push(Value::String(pair.0));
                } else {
                    turned.push(Value::String(pair.1));
                }
            },
            None => {},
        }
    }
    let mut out: Vec<Value> = Vec::new();
    while turned.len() > 0
        invariant
            out@.len() + turned@.len() == all.len(),
            forall|j: int|
                0 <= j < turned@.len() ==> (#[trigger] turned@[j])@ == ValueView::String(
                    if names {
                        all[all.len() - 1 - j].0
                    } else {
                        all[all.len() - 1 - j].1
                    },
                ),
            forall|j: int|
                0 <= j < out@.len() ==> (#[trigger] out@[j])@ == ValueView::String(
                    if names {
                        all[j].0
                    } else {
                        all[j].1
                    },
                ),
        decreases turned@.len(),
    {
        match turned.pop() {
            Some(item) => {
                out.push(item);
            },
            None => {},
        }
    }
    assert(views_of(out@) =~= if names {
        field_names(all)
    } else {
        field_values(all)
    });
    Value::array(out)
}

/// `HKEYS key`.
pub fn hkeys(engine: &mut StorageEngine, key: &[u8]) -> (given: Result<Value, RedisError>)
    requires
        old(engine).wf(),
    ensures
        final(engine).wf(),
        final(engine)@ == old(engine)@.queried(key@),
        answers(given, hkeys_reply(old(engine)@.live(key@))),
{
    match read_hash(engine, key) {
        Err(e) => Err(e),
        Ok(map) => Ok(project(&map, true)),
    }
}

/// `HVALS key`.
pub fn hvals(engine: &mut StorageEngine, key: &[u8]) -> (given: Result<Value, RedisError>)
    requires
        old(engine).wf(),
    ensures
        final(engine).wf(),
        final(engine)@ == old(engine)@.queried(key@),
        answers(given, hvals_reply(old(engine)@.live(key@))),
{
    match read_hash(engine, key) {
        Err(e) => Err(e),
        Ok(map) => Ok(project(&map, false)),
    }
}

/// `HLEN key`.
pub fn hlen(engine: &mut StorageEngine, key: &[u8]) -> (given: Result<Value, RedisError>)
    requires
        old(engine).wf(),
    ensures
        final(engine).wf(),
        final(engine)@ == old(engine)@.queried(key@),
        answers(given, hlen_reply(old(engine)@.live(key@))),
{
    match read_hash(engine, key) {
        Err(e) => Err(e),
        Ok(map) => Ok(Value::Int(map.len() as i64)),
    }
}

/// `HEXISTS key field`.
pub fn hexists(engine: &mut StorageEngine, key: &[u8], field: &[u8]) -> (given: Result<
    Value,
    RedisError,
>)
    requires
        old(engine).wf(),
    ensures
        final(engine).wf(),
        final(engine)@ == old(engine)@.queried(key@),
        answers(given, hexists_reply(old(engine)@.live(key@), field@)),
{
    match read_hash(engine, key) {
        Err(e) => Err(e),
        Ok(map) => Ok(flag_value(map.contains(field))),
    }
}

} // verus!
