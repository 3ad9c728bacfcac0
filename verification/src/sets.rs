//! Operations on set values.

use vstd::prelude::*;
use crate::byte_set::{ByteSet, without_member};
use crate::engine::StorageEngine;
use crate::error::RedisError;
use crate::model::entry_of;
use crate::ops::{ErrorKind, Outcome, answer, answers, failure, lemma_purge_settles, store};
use crate::strings::deadline_of;
use crate::types::{RedisData, RedisDataView, StoredValueView, list_view};
use crate::value::{Value, ValueView, strings_of};

verus! {

/// The members of a live set entry; none if there is no entry. `None`
/// if the entry is not a set.
pub open spec fn set_of(cur: Option<StoredValueView>) -> Option<Seq<Seq<u8>>> {
    match cur {
        None => Some(Seq::empty()),
        Some(entry) => match entry.data {
            RedisDataView::SetOf(members) => Some(members),
            _ => None,
        },
    }
}

/// One for yes, zero for no.
pub open spec fn flag(yes: bool) -> ValueView {
    ValueView::Int(
        if yes {
            1i64
        } else {
            0i64
        },
    )
}

/// `SADD`: `member` joins the set unless it belongs to it already; the
/// answer says whether it joined.
pub open spec fn sadd_outcome(cur: Option<StoredValueView>, member: Seq<u8>) -> Outcome {
    match set_of(cur) {
        Some(members) => if members.contains(member) {
            answer(flag(false))
        } else {
            store(
                entry_of(RedisDataView::SetOf(members.push(member)), deadline_of(cur)),
                flag(true),
            )
        },
        None => failure(ErrorKind::WrongType),
    }
}

/// `SREM`: `member` leaves the set if it belongs to it; the answer says
/// whether it did.
pub open spec fn srem_outcome(cur: Option<StoredValueView>, member: Seq<u8>) -> Outcome {
    match set_of(cur) {
        Some(members) => if members.contains(member) {
            store(
                entry_of(
                    RedisDataView::SetOf(without_member(members, member)),
                    deadline_of(cur),
                ),
                flag(true),
            )
        } else {
            answer(flag(false))
        },
        None => failure(ErrorKind::WrongType),
    }
}

/// `SPOP`: one member leaves the set and is the answer; an empty set or
/// an absent key answers nothing.
pub open spec fn spop_outcome(cur: Option<StoredValueView>) -> Outcome {
    match set_of(cur) {
        Some(members) => if members.len() == 0 {
            answer(ValueView::Null)
        } else {
            store(
                entry_of(RedisDataView::SetOf(members.drop_first()), deadline_of(cur)),
                ValueView::String(members[0]),
            )
        },
        None => failure(ErrorKind::WrongType),
    }
}

/// `SMEMBERS`: all members.
pub open spec fn smembers_reply(cur: Option<StoredValueView>) -> Result<ValueView, ErrorKind> {
    match set_of(cur) {
        Some(members) => Ok(ValueView::Array(strings_of(members))),
        None => Err(ErrorKind::WrongType),
    }
}

/// `SISMEMBER`: whether `member` belongs to the set.
pub open spec fn sismember_reply(cur: Option<StoredValueView>, member: Seq<u8>) -> Result<
    ValueView,
    ErrorKind,
> {
    match set_of(cur) {
        Some(members) => Ok(flag(members.contains(member))),
        None => Err(ErrorKind::WrongType),
    }
}

/// `SCARD`: the number of members.
pub open spec fn scard_reply(cur: Option<StoredValueView>) -> Result<ValueView, ErrorKind> {
    match set_of(cur) {
        Some(members) => Ok(ValueView::Int(members.len() as i64)),
        None => Err(ErrorKind::WrongType),
    }
}

/// One for yes, zero for no.
pub fn flag_value(yes: bool) -> (v: Value)
    ensures
        v@ == flag(yes),
{
    if yes {
        Value::Int(1)
    } else {
        Value::Int(0)
    }
}

/// The live set under `key` with its deadline, an empty set if the key
/// is absent; `WrongType` if the key holds something else. An entry
/// past its deadline is purged.
fn take_set(engine: &mut StorageEngine, key: &[u8]) -> (found: Result<
    (ByteSet, Option<u64>),
    RedisError,
>)
    requires
        old(engine).wf(),
    ensures
        final(engine).wf(),
        final(engine)@ == old(engine)@.purge(key@),
        match found {
            Ok(pair) => set_of(old(engine)@.live(key@)) == Some(pair.0@) && pair.0.wf() && pair.1
                == deadline_of(old(engine)@.live(key@)),
            Err(e) => set_of(old(engine)@.live(key@)) is None && e is WrongType,
        },
{
    match engine.peek(key) {
        None => Ok((ByteSet::new(), None)),
        Some(entry) => match entry.data {
            RedisData::SetOf(set) => Ok((set, entry.expire_at)),
            _ => Err(RedisError::WrongType),
        },
    }
}

/// The live set under `key`, read.
fn read_set(engine: &mut StorageEngine, key: &[u8]) -> (found: Result<ByteSet, RedisError>)
    requires
        old(engine).wf(),
    ensures
        final(engine).wf(),
        final(engine)@ == old(engine)@.queried(key@),
        match found {
            Ok(set) => set_of(old(engine)@.live(key@)) == Some(set@) && set.wf(),
            Err(e) => set_of(old(engine)@.live(key@)) is None && e is WrongType,
        },
{
    match engine.get(key) {
        None => Ok(ByteSet::new()),
        Some(entry) => match entry.data {
            RedisData::SetOf(set) => Ok(set),
            _ => Err(RedisError::WrongType),
        },
    }
}

/// `SADD key member`.
pub fn sadd(engine: &mut StorageEngine, key: &[u8], member: Vec<u8>) -> (given: Result<
    Value,
    RedisError,
>)
    requires
        old(engine).wf(),
    ensures
        final(engine).wf(),
        final(engine)@ == old(engine)@.after(key@, sadd_outcome(old(engine)@.live(key@), member@)),
        answers(
            given,
            old(engine)@.reply_to(key@, sadd_outcome(old(engine)@.live(key@), member@)),
        ),
{
    proof {
        lemma_purge_settles(engine@, key@);
    }
    match take_set(engine, key) {
        Err(e) => Err(e),
        Ok((mut set, expire_at)) => {
            if set.insert(member) {
                engine.store(key, RedisData::SetOf(set), expire_at, Value::Int(1))
            } else {
                Ok(Value::Int(0))
            }
        },
    }
}

/// `SREM key member`.
pub fn srem(engine: &mut StorageEngine, key: &[u8], member: &[u8]) -> (given: Result<
    Value,
    RedisError,
>)
    requires
        old(engine).wf(),
    ensures
        final(engine).wf(),
        final(engine)@ == old(engine)@.after(key@, srem_outcome(old(engine)@.live(key@), member@)),
        answers(
            given,
            old(engine)@.reply_to(key@, srem_outcome(old(engine)@.live(key@), member@)),
        ),
{
    proof {
        lemma_purge_settles(engine@, key@);
    }
    match take_set(engine, key) {
        Err(e) => Err(e),
        Ok((mut set, expire_at)) => {
            if set.remove(member) {
                engine.store(key, RedisData::SetOf(set), expire_at, Value::Int(1))
            } else {
                Ok(Value::Int(0))
            }
        },
    }
}

/// `SPOP key`.
pub fn spop(engine: &mut StorageEngine, key: &[u8]) -> (given: Result<Value, RedisError>)
    requires
        old(engine).wf(),
    ensures
        final(engine).wf(),
        final(engine)@ == old(engine)@.after(key@, spop_outcome(old(engine)@.live(key@))),
        answers(given, old(engine)@.reply_to(key@, spop_outcome(old(engine)@.live(key@)))),
{
    proof {
        lemma_purge_settles(engine@, key@);
    }
    match take_set(engine, key) {
        Err(e) => Err(e),
        Ok((mut set, expire_at)) => match set.pop() {
            None => Ok(Value::Null),
            Some(member) => engine.store(
                key,
                RedisData::SetOf(set),
                expire_at,
                Value::String(member),
            ),
        },
    }
}

/// `SMEMBERS key`.
pub fn smembers(engine: &mut StorageEngine, key: &[u8]) -> (given: Result<Value, RedisError>)
    requires
        old(engine).wf(),
    ensures
        final(engine).wf(),
        final(engine)@ == old(engine)@.queried(key@),
        answers(given, smembers_reply(old(engine)@.live(key@))),
{
    match read_set(engine, key) {
        Err(e) => Err(e),
        Ok(set) => {
            let members = set.members();
            assert(list_view(members@) =~= set@);
            Ok(Value::strings(members))
        },
    }
}

/// `SISMEMBER key member`.
pub fn sismember(engine: &mut StorageEngine, key: &[u8], member: &[u8]) -> (given: Result<
    Value,
    RedisError,
>)
    requires
        old(engine).wf(),
    ensures
        final(engine).wf(),
        final(engine)@ == old(engine)@.queried(key@),
        answers(given, sismember_reply(old(engine)@.live(key@), member@)),
{
    match read_set(engine, key) {
        Err(e) => Err(e),
        Ok(set) => Ok(flag_value(set.contains(member))),
    }
}

/// `SCARD key`.
pub fn scard(engine: &mut StorageEngine, key: &[u8]) -> (given: Result<Value, RedisError>)
    requires
        old(engine).wf(),
    ensures
        final(engine).wf(),
        final(engine)@ == old(engine)@.queried(key@),
        answers(given, scard_reply(old(engine)@.live(key@))),
{
    match read_set(engine, key) {
        Err(e) => Err(e),
        Ok(set) => Ok(Value::Int(set.len() as i64)),
    }
}

} // verus!
