//! Operations on list values.

use vstd::prelude::*;
use std::collections::VecDeque;
use crate::bytes::copy_bytes;
use crate::engine::StorageEngine;
use crate::error::RedisError;
use crate::model::entry_of;
use crate::ops::{ErrorKind, Outcome, answer, answers, delete, failure, lemma_purge_settles, store};
use crate::range::{resolve_index, resolve_position, resolve_span, slice_of};
use crate::strings::deadline_of;
use crate::types::{RedisData, RedisDataView, StoredValueView, list_view};
use crate::value::{Value, ValueView, strings_of};

verus! {

/// The elements of a live list entry; none if there is no entry.
/// `None` if the entry is not a list.
pub open spec fn list_of(cur: Option<StoredValueView>) -> Option<Seq<Seq<u8>>> {
    match cur {
        None => Some(Seq::empty()),
        Some(entry) => match entry.data {
            RedisDataView::List(items) => Some(items),
            _ => None,
        },
    }
}

/// `LPUSH`: `value` becomes the first element.
pub open spec fn lpush_outcome(cur: Option<StoredValueView>, value: Seq<u8>) -> Outcome {
    match list_of(cur) {
        Some(items) => store(
            entry_of(RedisDataView::List(seq![value] + items), deadline_of(cur)),
            ValueView::Int((items.len() + 1) as i64),
        ),
        None => failure(ErrorKind::WrongType),
    }
}

/// `RPUSH`: `value` becomes the last element.
pub open spec fn rpush_outcome(cur: Option<StoredValueView>, value: Seq<u8>) -> Outcome {
    match list_of(cur) {
        Some(items) => store(
            entry_of(RedisDataView::List(items.push(value)), deadline_of(cur)),
            ValueView::Int((items.len() + 1) as i64),
        ),
        None => failure(ErrorKind::WrongType),
    }
}

/// What is left of a list: the rest of it, or no key at all once the
/// last element has gone.
pub open spec fn shrunk(
    cur: Option<StoredValueView>,
    rest: Seq<Seq<u8>>,
    popped: Seq<u8>,
) -> Outcome {
    if rest.len() == 0 {
        delete(ValueView::String(popped))
    } else {
        store(entry_of(RedisDataView::List(rest), deadline_of(cur)), ValueView::String(popped))
    }
}

/// `LPOP`: the first element leaves the list and is the answer; an
/// absent key answers nothing.
pub open spec fn lpop_outcome(cur: Option<StoredValueView>) -> Outcome {
    match list_of(cur) {
        Some(items) => if items.len() == 0 {
            answer(ValueView::Null)
        } else {
            shrunk(cur, items.drop_first(), items.first())
        },
        None => failure(ErrorKind::WrongType),
    }
}

/// `RPOP`: the last element leaves the list and is the answer; an
/// absent key answers nothing.
pub open spec fn rpop_outcome(cur: Option<StoredValueView>) -> Outcome {
    match list_of(cur) {
        Some(items) => if items.len() == 0 {
            answer(ValueView::Null)
        } else {
            shrunk(cur, items.drop_last(), items.last())
        },
        None => failure(ErrorKind::WrongType),
    }
}

/// `LLEN`: the number of elements, zero for an absent key.
pub open spec fn llen_reply(cur: Option<StoredValueView>) -> Result<ValueView, ErrorKind> {
    match list_of(cur) {
        Some(items) => Ok(ValueView::Int(items.len() as i64)),
        None => Err(ErrorKind::WrongType),
    }
}

/// `LRANGE`: the elements from `start` to `stop`, both included;
/// negative positions count back from the end.
pub open spec fn lrange_reply(cur: Option<StoredValueView>, start: int, stop: int) -> Result<
    ValueView,
    ErrorKind,
> {
    match list_of(cur) {
        Some(items) => Ok(ValueView::Array(strings_of(slice_of(items, start, stop)))),
        None => Err(ErrorKind::WrongType),
    }
}

/// `LINDEX`: the element at `index`, nothing if there is none.
pub open spec fn lindex_reply(cur: Option<StoredValueView>, index: int) -> Result<
    ValueView,
    ErrorKind,
> {
    match list_of(cur) {
        Some(items) => match resolve_index(items.len() as int, index) {
            Some(at) => Ok(ValueView::String(items[at])),
            None => Ok(ValueView::Null),
        },
        None => Err(ErrorKind::WrongType),
    }
}

/// The live list under `key` with its deadline, an empty list if the key
/// is absent; `WrongType` if the key holds something else. An entry
/// past its deadline is purged.
fn take_list(engine: &mut StorageEngine, key: &[u8]) -> (found: Result<
    (VecDeque<Vec<u8>>, Option<u64>),
    RedisError,
>)
    requires
        old(engine).wf(),
    ensures
        final(engine).wf(),
        final(engine)@ == old(engine)@.purge(key@),
        match found {
            Ok(pair) => list_of(old(engine)@.live(key@)) == Some(list_view(pair.0@)) && pair.1
                == deadline_of(old(engine)@.live(key@)),
            Err(e) => list_of(old(engine)@.live(key@)) is None && e is WrongType,
        },
{
    match engine.peek(key) {
        None => {
            let empty: VecDeque<Vec<u8>> = VecDeque::new();
            assert(list_view(empty@) =~= Seq::<Seq<u8>>::empty());
            Ok((empty, None))
        },
        Some(entry) => match entry.data {
            RedisData::List(items) => Ok((items, entry.expire_at)),
            _ => Err(RedisError::WrongType),
        },
    }
}

/// `LPUSH key value`: answers the new length.
pub fn lpush(engine: &mut StorageEngine, key: &[u8], value: Vec<u8>) -> (given: Result<
    Value,
    RedisError,
>)
    requires
        old(engine).wf(),
    ensures
        final(engine).wf(),
        final(engine)@ == old(engine)@.after(key@, lpush_outcome(old(engine)@.live(key@), value@)),
        answers(
            given,
            old(engine)@.reply_to(key@, lpush_outcome(old(engine)@.live(key@), value@)),
        ),
{
    proof {
        lemma_purge_settles(engine@, key@);
    }
    match take_list(engine, key) {
        Err(e) => Err(e),
        Ok((mut items, expire_at)) => {
            let ghost before = list_view(items@);
            items.push_front(value);
            assert(list_view(items@) =~= seq![value@] + before);
            let n = items.len();
            engine.store(key, RedisData::List(items), expire_at, Value::Int(n as i64))
        },
    }
}

/// `RPUSH key value`: answers the new length.
pub fn rpush(engine: &mut StorageEngine, key: &[u8], value: Vec<u8>) -> (given: Result<
    Value,
    RedisError,
>)
    requires
        old(engine).wf(),
    ensures
        final(engine).wf(),
        final(engine)@ == old(engine)@.after(key@, rpush_outcome(old(engine)@.live(key@), value@)),
        answers(
            given,
            old(engine)@.reply_to(key@, rpush_outcome(old(engine)@.live(key@), value@)),
        ),
{
    proof {
        lemma_purge_settles(engine@, key@);
    }
    match take_list(engine, key) {
        Err(e) => Err(e),
        Ok((mut items, expire_at)) => {
            let ghost before = list_view(items@);
            items.push_back(value);
            assert(list_view(items@) =~= before.push(value@));
            let n = items.len();
            engine.store(key, RedisData::List(items), expire_at, Value::Int(n as i64))
        },
    }
}

/// Stores what is left of a list, or removes the key if nothing is.
fn put_back(
    engine: &mut StorageEngine,
    key: &[u8],
    rest: VecDeque<Vec<u8>>,
    expire_at: Option<u64>,
    popped: Vec<u8>,
    Ghost(cur): Ghost<Option<StoredValueView>>,
) -> (given: Result<Value, RedisError>)
    requires
        old(engine).wf(),
        old(engine)@.purge(key@) == old(engine)@,
        expire_at == deadline_of(cur),
    ensures
        final(engine).wf(),
        final(engine)@ == old(engine)@.after(key@, shrunk(cur, list_view(rest@), popped@)),
        answers(given, old(engine)@.reply_to(key@, shrunk(cur, list_view(rest@), popped@))),
{
    if rest.len() == 0 {
        engine.remove(key);
        Ok(Value::String(popped))
    } else {
        engine.store(key, RedisData::List(rest), expire_at, Value::String(popped))
    }
}

/// `LPOP key`.
pub fn lpop(engine: &mut StorageEngine, key: &[u8]) -> (given: Result<Value, RedisError>)
    requires
        old(engine).wf(),
    ensures
        final(engine).wf(),
        final(engine)@ == old(engine)@.after(key@, lpop_outcome(old(engine)@.live(key@))),
        answers(given, old(engine)@.reply_to(key@, lpop_outcome(old(engine)@.live(key@)))),
{
    let ghost cur = engine@.live(key@);
    proof {
        lemma_purge_settles(engine@, key@);
    }
    match take_list(engine, key) {
        Err(e) => Err(e),
        Ok((mut items, expire_at)) => {
            let ghost before = list_view(items@);
            match items.pop_front() {
                None => Ok(Value::Null),
                Some(first) => {
                    assert(list_view(items@) =~= before.drop_first());
                    assert(first@ == before.first());
                    put_back(engine, key, items, expire_at, first, Ghost(cur))
                },
            }
        },
    }
}

/// `RPOP key`.
pub fn rpop(engine: &mut StorageEngine, key: &[u8]) -> (given: Result<Value, RedisError>)
    requires
        old(engine).wf(),
    ensures
        final(engine).wf(),
        final(engine)@ == old(engine)@.after(key@, rpop_outcome(old(engine)@.live(key@))),
        answers(given, old(engine)@.reply_to(key@, rpop_outcome(old(engine)@.live(key@)))),
{
    let ghost cur = engine@.live(key@);
    proof {
        lemma_purge_settles(engine@, key@);
    }
    match take_list(engine, key) {
        Err(e) => Err(e),
        Ok((mut items, expire_at)) => {
            let ghost before = list_view(items@);
            match items.pop_back() {
                None => Ok(Value::Null),
                Some(last) => {
                    assert(list_view(items@) =~= before.drop_last());
                    assert(last@ == before.last());
                    put_back(engine, key, items, expire_at, last, Ghost(cur))
                },
            }
        },
    }
}

/// The live list under `key`, read: an empty list if the key is absent,
/// `WrongType` if the key holds something else.
fn read_list(engine: &mut StorageEngine, key: &[u8]) -> (found: Result<
    VecDeque<Vec<u8>>,
    RedisError,
>)
    requires
        old(engine).wf(),
    ensures
        final(engine).wf(),
        final(engine)@ == old(engine)@.queried(key@),
        match found {
            Ok(items) => list_of(old(engine)@.live(key@)) == Some(list_view(items@)),
            Err(e) => list_of(old(engine)@.live(key@)) is None && e is WrongType,
        },
{
    match engine.get(key) {
        None => {
            let empty: VecDeque<Vec<u8>> = VecDeque::new();
            assert(list_view(empty@) =~= Seq::<Seq<u8>>::empty());
            Ok(empty)
        },
        Some(entry) => match entry.data {
            RedisData::List(items) => Ok(items),
            _ => Err(RedisError::WrongType),
        },
    }
}

/// `LLEN key`.
pub fn llen(engine: &mut StorageEngine, key: &[u8]) -> (given: Result<Value, RedisError>)
    requires
        old(engine).wf(),
    ensures
        final(engine).wf(),
        final(engine)@ == old(engine)@.queried(key@),
        answers(given, llen_reply(old(engine)@.live(key@))),
{
    match read_list(engine, key) {
        Err(e) => Err(e),
        Ok(items) => Ok(Value::Int(items.len() as i64)),
    }
}

/// `LRANGE key start stop`.
pub fn lrange(engine: &mut StorageEngine, key: &[u8], start: isize, stop: isize) -> (given: Result<
    Value,
    RedisError,
>)
    requires
        old(engine).wf(),
    ensures
        final(engine).wf(),
        final(engine)@ == old(engine)@.queried(key@),
        answers(given, lrange_reply(old(engine)@.live(key@), start as int, stop as int)),
{
    match read_list(engine, key) {
        Err(e) => Err(e),
        Ok(items) => {
            let (lo, hi) = resolve_span(items.len(), start, stop);
            let ghost all = list_view(items@);
            let mut out: Vec<Vec<u8>> = Vec::new();
            let mut i: usize = lo;
            while i < hi
                invariant
                    lo <= i <= hi <= items.len(),
                    all == list_view(items@),
                    list_view(out@) == all.subrange(lo as int, i as int),
                decreases hi - i,
            {
                let ghost so_far = list_view(out@);
                out.push(copy_bytes(items[i].as_slice()));
                assert(list_view(out@) =~= so_far.push(all[i as int]));
                i += 1;
                assert(list_view(out@) =~= all.subrange(lo as int, i as int));
            }
            Ok(Value::strings(out))
        },
    }
}

/// `LINDEX key index`.
pub fn lindex(engine: &mut StorageEngine, key: &[u8], index: isize) -> (given: Result<
    Value,
    RedisError,
>)
    requires
        old(engine).wf(),
    ensures
        final(engine).wf(),
        final(engine)@ == old(engine)@.queried(key@),
        answers(given, lindex_reply(old(engine)@.live(key@), index as int)),
{
    match read_list(engine, key) {
        Err(e) => Err(e),
        Ok(items) => match resolve_position(items.len(), index) {
            Some(at) => Ok(Value::String(copy_bytes(items[at].as_slice()))),
            None => Ok(Value::Null),
        },
    }
}

} // verus!
