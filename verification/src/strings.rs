//! Operations on string values.

use vstd::prelude::*;
use crate::bytes::copy_bytes;
use crate::engine::{StorageEngine, deadline_after};
use crate::error::RedisError;
use crate::model::{EngineView, entry_of};
use crate::numbers::{decimal, format_i64, parse_i64, parse_i64_spec};
use crate::ops::{ErrorKind, Outcome, answer, answers, failure, lemma_purge_settles, store};
use crate::range::{resolve_span, slice_of};
use crate::types::{RedisData, RedisDataView, StoredValueView, list_view};
use crate::value::{Value, ValueView, lemma_views_of_push, views_of};

verus! {

/// Largest bit offset that `SETBIT` accepts.
pub const MAX_BIT_OFFSET: usize = 0xffff_ffff;

/// The bytes of a live string entry; empty if there is no entry.
/// `None` if the entry is not a string.
pub open spec fn string_of(cur: Option<StoredValueView>) -> Option<Seq<u8>> {
    match cur {
        None => Some(Seq::empty()),
        Some(entry) => match entry.data {
            RedisDataView::String(bytes) => Some(bytes),
            _ => None,
        },
    }
}

/// The deadline of a live entry, if it has one.
pub open spec fn deadline_of(cur: Option<StoredValueView>) -> Option<u64> {
    match cur {
        Some(entry) => entry.expire_at,
        None => None,
    }
}

/// `GET`: the bytes of a string, nothing for an absent key.
pub open spec fn get_reply(cur: Option<StoredValueView>) -> Result<ValueView, ErrorKind> {
    match cur {
        None => Ok(ValueView::Null),
        Some(entry) => match entry.data {
            RedisDataView::String(bytes) => Ok(ValueView::String(bytes)),
            _ => Err(ErrorKind::WrongType),
        },
    }
}

/// `GET key`.
pub fn get(engine: &mut StorageEngine, key: &[u8]) -> (given: Result<Value, RedisError>)
    requires
        old(engine).wf(),
    ensures
        final(engine).wf(),
        final(engine)@ == old(engine)@.queried(key@),
        answers(given, get_reply(old(engine)@.live(key@))),
{
    match engine.get(key) {
        None => Ok(Value::Null),
        Some(entry) => match entry.data {
            RedisData::String(bytes) => Ok(Value::String(bytes)),
            _ => Err(RedisError::WrongType),
        },
    }
}

/// `SET`: the key holds the string, without a deadline.
pub open spec fn set_outcome(value: Seq<u8>) -> Outcome {
    store(entry_of(RedisDataView::String(value), None), ValueView::Okay)
}

/// `SET key value`.
pub fn set(engine: &mut StorageEngine, key: &[u8], value: Vec<u8>) -> (given: Result<
    Value,
    RedisError,
>)
    requires
        old(engine).wf(),
    ensures
        final(engine).wf(),
        final(engine)@ == old(engine)@.after(key@, set_outcome(value@)),
        answers(given, old(engine)@.reply_to(key@, set_outcome(value@))),
{
    proof {
        lemma_purge_settles(engine@, key@);
    }
    engine.purge_expired(key);
    engine.store(key, RedisData::String(value), None, Value::Okay)
}

/// The conditions and the lifetime that `SET` can be given.
#[derive(Debug, Clone, Copy, PartialEq, Eq, Structural)]
pub struct SetOptions {
    /// Lifetime in seconds.
    pub ex: Option<u64>,
    /// Lifetime in milliseconds.
    pub px: Option<u64>,
    /// Write only if the key is absent.
    pub nx: bool,
    /// Write only if the key is present.
    pub xx: bool,
}

impl SetOptions {
    /// No condition, no lifetime.
    pub fn new() -> (options: SetOptions)
        ensures
            options == (SetOptions { ex: None, px: None, nx: false, xx: false }),
    {
        SetOptions { ex: None, px: None, nx: false, xx: false }
    }

    /// A lifetime cannot be given in both units, nor can both conditions
    /// be asked for.
    pub open spec fn is_valid(self) -> bool {
        !(self.ex is Some && self.px is Some) && !(self.nx && self.xx)
    }

    /// The deadline that these options give an entry written at `now`.
    pub open spec fn deadline(self, now: u64) -> Option<u64> {
        match self.px {
            Some(ms) => Some(deadline_after(now, ms)),
            None => match self.ex {
                Some(s) => Some(
                    deadline_after(
                        now,
                        if s * 1000 > u64::MAX {
                            u64::MAX
                        } else {
                            (s * 1000) as u64
                        },
                    ),
                ),
                None => None,
            },
        }
    }
}

/// `SET` with options: nothing is written, and nothing answered, when
/// the condition on the key's presence is not met.
pub open spec fn set_options_outcome(
    cur: Option<StoredValueView>,
    value: Seq<u8>,
    options: SetOptions,
    now: u64,
) -> Outcome {
    if !options.is_valid() {
        failure(ErrorKind::InvalidArgument)
    } else if (options.nx && cur is Some) || (options.xx && cur is None) {
        answer(ValueView::Null)
    } else {
        store(entry_of(RedisDataView::String(value), options.deadline(now)), ValueView::Okay)
    }
}

/// `SET key value [EX s | PX ms] [NX | XX]`.
pub fn set_options(
    engine: &mut StorageEngine,
    key: &[u8],
    value: Vec<u8>,
    options: SetOptions,
) -> (given:
    Result<Value, RedisError>)
    requires
        old(engine).wf(),
    ensures
        final(engine).wf(),
        final(engine)@ == old(engine)@.after(
            key@,
            set_options_outcome(old(engine)@.live(key@), value@, options, old(engine)@.now),
        ),
        answers(
            given,
            old(engine)@.reply_to(
                key@,
                set_options_outcome(old(engine)@.live(key@), value@, options, old(engine)@.now),
            ),
        ),
{
    proof {
        lemma_purge_settles(engine@, key@);
    }
    let present = engine.key_exists(key);
    if (options.ex.is_some() && options.px.is_some()) || (options.nx && options.xx) {
        return Err(RedisError::InvalidArgument("conflicting options".to_owned()));
    }
    if (options.nx && present) || (options.xx && !present) {
        return Ok(Value::Null);
    }
    let now = engine.now_ms();
    let deadline = match options.px {
        Some(ms) => Some(now.saturating_add(ms)),
        None => match options.ex {
            Some(s) => {
                let ms: u64 = if s > u64::MAX / 1000 {
                    u64::MAX
                } else {
                    s * 1000
                };
                Some(now.saturating_add(ms))
            },
            None => None,
        },
    };
    engine.store(key, RedisData::String(value), deadline, Value::Okay)
}

/// `APPEND`: the string grows by `value`; an absent key starts empty.
pub open spec fn append_outcome(cur: Option<StoredValueView>, value: Seq<u8>) -> Outcome {
    match string_of(cur) {
        Some(bytes) => store(
            entry_of(RedisDataView::String(bytes + value), deadline_of(cur)),
            ValueView::Int((bytes.len() + value.len()) as i64),
        ),
        None => failure(ErrorKind::WrongType),
    }
}

/// `APPEND key value`: answers the new length.
pub fn append(engine: &mut StorageEngine, key: &[u8], value: &[u8]) -> (given: Result<
    Value,
    RedisError,
>)
    requires
        old(engine).wf(),
    ensures
        final(engine).wf(),
        final(engine)@ == old(engine)@.after(
            key@,
            append_outcome(old(engine)@.live(key@), value@),
        ),
        answers(
            given,
            old(engine)@.reply_to(key@, append_outcome(old(engine)@.live(key@), value@)),
        ),
{
    proof {
        lemma_purge_settles(engine@, key@);
    }
    match engine.peek(key) {
        None => {
            let bytes = copy_bytes(value);
            let n = bytes.len();
            assert(bytes@ =~= Seq::<u8>::empty() + value@);
            engine.store(key, RedisData::String(bytes), None, Value::Int(n as i64))
        },
        Some(entry) => match entry.data {
            RedisData::String(mut bytes) => {
                let ghost before = bytes@;
                let mut i: usize = 0;
                while i < value.len()
                    invariant
                        i <= value.len(),
                        bytes@ == before + value@.take(i as int),
                    decreases value.len() - i,
                {
                    bytes.push(value[i]);
                    i += 1;
                    assert(bytes@ =~= before + value@.take(i as int));
                }
                assert(value@.take(i as int) =~= value@);
                let n = bytes.len();
                engine.store(key, RedisData::String(bytes), entry.expire_at, Value::Int(n as i64))
            },
            _ => Err(RedisError::WrongType),
        },
    }
}

/// `STRLEN`: the length of a string, zero for an absent key.
pub open spec fn strlen_reply(cur: Option<StoredValueView>) -> Result<ValueView, ErrorKind> {
    match string_of(cur) {
        Some(bytes) => Ok(ValueView::Int(bytes.len() as i64)),
        None => Err(ErrorKind::WrongType),
    }
}

/// `STRLEN key`.
pub fn strlen(engine: &mut StorageEngine, key: &[u8]) -> (given: Result<Value, RedisError>)
    requires
        old(engine).wf(),
    ensures
        final(engine).wf(),
        final(engine)@ == old(engine)@.queried(key@),
        answers(given, strlen_reply(old(engine)@.live(key@))),
{
    match engine.get(key) {
        None => Ok(Value::Int(0)),
        Some(entry) => match entry.data {
            RedisData::String(bytes) => Ok(Value::Int(bytes.len() as i64)),
            _ => Err(RedisError::WrongType),
        },
    }
}

/// `GETRANGE`: the bytes from `from` to `to`, both included; negative
/// positions count back from the end.
pub open spec fn getrange_reply(cur: Option<StoredValueView>, from: int, to: int) -> Result<
    ValueView,
    ErrorKind,
> {
    match string_of(cur) {
        Some(bytes) => Ok(ValueView::String(slice_of(bytes, from, to))),
        None => Err(ErrorKind::WrongType),
    }
}

/// A copy of `src[lo..hi]`.
pub fn copy_range(src: &[u8], lo: usize, hi: usize) -> (out: Vec<u8>)
    requires
        lo <= hi <= src.len(),
    ensures
        out@ == src@.subrange(lo as int, hi as int),
{
    let mut out: Vec<u8> = Vec::new();
    let mut i: usize = lo;
    while i < hi
        invariant
            lo <= i <= hi <= src.len(),
            out@ == src@.subrange(lo as int, i as int),
        decreases hi - i,
    {
        out.push(src[i]);
        i += 1;
        assert(out@ =~= src@.subrange(lo as int, i as int));
    }
    out
}

/// `GETRANGE key from to`.
pub fn getrange(engine: &mut StorageEngine, key: &[u8], from: isize, to: isize) -> (given: Result<
    Value,
    RedisError,
>)
    requires
        old(engine).wf(),
    ensures
        final(engine).wf(),
        final(engine)@ == old(engine)@.queried(key@),
        answers(given, getrange_reply(old(engine)@.live(key@), from as int, to as int)),
{
    match engine.get(key) {
        None => {
            let empty: Vec<u8> = Vec::new();
            assert(empty@ =~= slice_of(Seq::<u8>::empty(), from as int, to as int));
            Ok(Value::String(empty))
        },
        Some(entry) => match entry.data {
            RedisData::String(bytes) => {
                let (lo, hi) = resolve_span(bytes.len(), from, to);
                Ok(Value::String(copy_range(bytes.as_slice(), lo, hi)))
            },
            _ => Err(RedisError::WrongType),
        },
    }
}

/// `bytes` with `value` written over it from position `offset` on; the
/// gap up to `offset`, if there is one, is filled with zero bytes.
pub open spec fn overlay(bytes: Seq<u8>, offset: int, value: Seq<u8>) -> Seq<u8> {
    let len = if bytes.len() > offset + value.len() {
        bytes.len() as int
    } else {
        offset + value.len()
    };
    Seq::new(
        len as nat,
        |i: int|
            if offset <= i < offset + value.len() {
                value[i - offset]
            } else if i < bytes.len() {
                bytes[i]
            } else {
                0u8
            },
    )
}

/// `SETRANGE`: `value` is written over the string from `offset` on. A
/// negative offset, or one that would make the string longer than the
/// machine can index, is refused; an empty `value` changes nothing.
pub open spec fn setrange_outcome(
    cur: Option<StoredValueView>,
    offset: int,
    value: Seq<u8>,
) -> Outcome {
    match string_of(cur) {
        Some(bytes) => if offset < 0 || offset + value.len() > usize::MAX {
            failure(ErrorKind::InvalidArgument)
        } else if value.len() == 0 {
            answer(ValueView::Int(bytes.len() as i64))
        } else {
            store(
                entry_of(RedisDataView::String(overlay(bytes, offset, value)), deadline_of(cur)),
                ValueView::Int(overlay(bytes, offset, value).len() as i64),
            )
        },
        None => failure(ErrorKind::WrongType),
    }
}

/// Writes `value` over `bytes` from `offset` on.
fn write_over(bytes: Vec<u8>, offset: usize, value: &[u8]) -> (out: Vec<u8>)
    requires
        offset + value.len() <= usize::MAX,
    ensures
        out@ == overlay(bytes@, offset as int, value@),
{
    let ghost before = bytes@;
    let mut out = bytes;
    while out.len() < offset
        invariant
            out@.len() <= offset || out@.len() == before.len(),
            before.len() <= out@.len(),
            forall|i: int| 0 <= i < before.len() ==> out@[i] == before[i],
            forall|i: int| before.len() <= i < out@.len() ==> out@[i] == 0u8,
        decreases offset - out@.len(),
    {
        out.push(0u8);
    }
    let mut i: usize = 0;
    while i < value.len()
        invariant
            i <= value.len(),
            offset + value.len() <= usize::MAX,
            offset <= out@.len(),
            out@.len() == if before.len() > offset + i {
                before.len() as int
            } else {
                offset + i
            },
            forall|j: int| 0 <= j < offset && j < before.len() ==> out@[j] == before[j],
            forall|j: int| before.len() <= j < offset ==> out@[j] == 0u8,
            forall|j: int| offset <= j < offset + i ==> out@[j] == value@[j - offset],
            forall|j: int| offset + i <= j < out@.len() ==> out@[j] == before[j],
        decreases value.len() - i,
    {
        if offset + i < out.len() {
            out[offset + i] = value[i];
        } else {
            out.push(value[i]);
        }
        i += 1;
    }
    assert(out@ =~= overlay(before, offset as int, value@));
    out
}

/// `SETRANGE key offset value`: answers the new length.
pub fn setrange(engine: &mut StorageEngine, key: &[u8], offset: isize, value: &[u8]) -> (given:
    Result<Value, RedisError>)
    requires
        old(engine).wf(),
    ensures
        final(engine).wf(),
        final(engine)@ == old(engine)@.after(
            key@,
            setrange_outcome(old(engine)@.live(key@), offset as int, value@),
        ),
        answers(
            given,
            old(engine)@.reply_to(
                key@,
                setrange_outcome(old(engine)@.live(key@), offset as int, value@),
            ),
        ),
{
    proof {
        lemma_purge_settles(engine@, key@);
    }
    let (bytes, expire_at) = match engine.peek(key) {
        None => (Vec::new(), None),
        Some(entry) => match entry.data {
            RedisData::String(bytes) => (bytes, entry.expire_at),
            _ => {
                return Err(RedisError::WrongType);
            },
        },
    };
    if offset < 0 || value.len() > usize::MAX - (offset as usize) {
        return Err(RedisError::InvalidArgument("offset is out of range".to_owned()));
    }
    if value.len() == 0 {
        return Ok(Value::Int(bytes.len() as i64));
    }
    let out = write_over(bytes, offset as usize, value);
    let n = out.len();
    engine.store(key, RedisData::String(out), expire_at, Value::Int(n as i64))
}

/// `INCRBY`: the number that the string denotes grows by `delta`; an
/// absent key counts as zero. A string that denotes no number is a
/// parse error, a sum beyond 64 bits an invalid argument.
pub open spec fn incr_outcome(cur: Option<StoredValueView>, delta: i64) -> Outcome {
    match string_of(cur) {
        Some(bytes) => {
            let held = if cur is None {
                Some(0i64)
            } else {
                parse_i64_spec(bytes)
            };
            match held {
                Some(n) => if i64::MIN <= n + delta <= i64::MAX {
                    store(
                        entry_of(RedisDataView::String(decimal(n + delta)), deadline_of(cur)),
                        ValueView::Int((n + delta) as i64),
                    )
                } else {
                    failure(ErrorKind::InvalidArgument)
                },
                None => failure(ErrorKind::ParseError),
            }
        },
        None => failure(ErrorKind::WrongType),
    }
}

/// `INCRBY key delta`: answers the new number.
pub fn incr_by(engine: &mut StorageEngine, key: &[u8], delta: i64) -> (given: Result<
    Value,
    RedisError,
>)
    requires
        old(engine).wf(),
    ensures
        final(engine).wf(),
        final(engine)@ == old(engine)@.after(key@, incr_outcome(old(engine)@.live(key@), delta)),
        answers(given, old(engine)@.reply_to(key@, incr_outcome(old(engine)@.live(key@), delta))),
{
    proof {
        lemma_purge_settles(engine@, key@);
    }
    let (held, expire_at) = match engine.peek(key) {
        None => (Some(0i64), None),
        Some(entry) => match entry.data {
            RedisData::String(bytes) => (parse_i64(bytes.as_slice()), entry.expire_at),
            _ => {
                return Err(RedisError::WrongType);
            },
        },
    };
    match held {
        None => Err(RedisError::ParseError),
        Some(n) => match n.checked_add(delta) {
            None => Err(RedisError::InvalidArgument("value would overflow".to_owned())),
            Some(sum) => engine.store(
                key,
                RedisData::String(format_i64(sum)),
                expire_at,
                Value::Int(sum),
            ),
        },
    }
}

/// `DECRBY`: as `INCRBY` with the sign of `delta` turned.
pub open spec fn decr_outcome(cur: Option<StoredValueView>, delta: i64) -> Outcome {
    if delta == i64::MIN {
        match string_of(cur) {
            Some(bytes) => {
                let held = if cur is None {
                    Some(0i64)
                } else {
                    parse_i64_spec(bytes)
                };
                match held {
                    Some(n) => if n < 0 {
                        store(
                            entry_of(
                                RedisDataView::String(decimal(n - delta)),
                                deadline_of(cur),
                            ),
                            ValueView::Int((n - delta) as i64),
                        )
                    } else {
                        failure(ErrorKind::InvalidArgument)
                    },
                    None => failure(ErrorKind::ParseError),
                }
            },
            None => failure(ErrorKind::WrongType),
        }
    } else {
        incr_outcome(cur, (-delta) as i64)
    }
}

/// `DECRBY key delta`: answers the new number.
pub fn decr_by(engine: &mut StorageEngine, key: &[u8], delta: i64) -> (given: Result<
    Value,
    RedisError,
>)
    requires
        old(engine).wf(),
    ensures
        final(engine).wf(),
        final(engine)@ == old(engine)@.after(key@, decr_outcome(old(engine)@.live(key@), delta)),
        answers(given, old(engine)@.reply_to(key@, decr_outcome(old(engine)@.live(key@), delta))),
{
    if delta != i64::MIN {
        return incr_by(engine, key, -delta);
    }
    proof {
        lemma_purge_settles(engine@, key@);
    }
    let (held, expire_at) = match engine.peek(key) {
        None => (Some(0i64), None),
        Some(entry) => match entry.data {
            RedisData::String(bytes) => (parse_i64(bytes.as_slice()), entry.expire_at),
            _ => {
                return Err(RedisError::WrongType);
            },
        },
    };
    match held {
        None => Err(RedisError::ParseError),
        Some(n) => match n.checked_sub(delta) {
            None => Err(RedisError::InvalidArgument("value would overflow".to_owned())),
            Some(sum) => engine.store(
                key,
                RedisData::String(format_i64(sum)),
                expire_at,
                Value::Int(sum),
            ),
        },
    }
}

/// What `MGET` answers for one key: the bytes of a string, nothing for
/// an absent key or a value of another kind.
pub open spec fn mget_item(cur: Option<StoredValueView>) -> ValueView {
    match cur {
        Some(entry) => match entry.data {
            RedisDataView::String(bytes) => ValueView::String(bytes),
            _ => ValueView::Null,
        },
        None => ValueView::Null,
    }
}

/// The state after the keys have been queried one after the other.
pub open spec fn mget_state(s: EngineView, keys: Seq<Seq<u8>>) -> EngineView
    decreases keys.len(),
{
    if keys.len() == 0 {
        s
    } else {
        mget_state(s, keys.drop_last()).queried(keys.last())
    }
}

/// What `MGET` answers for the keys, each queried after those before it.
pub open spec fn mget_replies(s: EngineView, keys: Seq<Seq<u8>>) -> Seq<ValueView>
    decreases keys.len(),
{
    if keys.len() == 0 {
        Seq::empty()
    } else {
        mget_replies(s, keys.drop_last()).push(
            mget_item(mget_state(s, keys.drop_last()).live(keys.last())),
        )
    }
}

/// `MGET key...`: one answer per key, in order.
pub fn mget(engine: &mut StorageEngine, keys: &Vec<Vec<u8>>) -> (given: Result<Value, RedisError>)
    requires
        old(engine).wf(),
    ensures
        final(engine).wf(),
        final(engine)@ == mget_state(old(engine)@, list_view(keys@)),
        answers(given, Ok(ValueView::Array(mget_replies(old(engine)@, list_view(keys@))))),
{
    let ghost start = engine@;
    let ghost all = list_view(keys@);
    let mut out: Vec<Value> = Vec::new();
    let mut i: usize = 0;
    assert(views_of(out@) =~= mget_replies(start, all.take(0)));
    while i < keys.len()
        invariant
            i <= keys.len(),
            all == list_view(keys@),
            engine.wf(),
            engine@ == mget_state(start, all.take(i as int)),
            views_of(out@) == mget_replies(start, all.take(i as int)),
        decreases keys.len() - i,
    {
        proof {
            assert(all.take(i as int + 1).drop_last() =~= all.take(i as int));
            assert(all.take(i as int + 1).last() == keys@[i as int]@);
        }
        let item = match engine.get(keys[i].as_slice()) {
            Some(entry) => match entry.data {
                RedisData::String(bytes) => Value::String(bytes),
                _ => Value::Null,
            },
            None => Value::Null,
        };
        proof {
            lemma_views_of_push(out@, item);
        }
        out.push(item);
        i += 1;
    }
    assert(all.take(i as int) =~= all);
    Ok(Value::array(out))
}

/// The pairs as plain byte strings.
pub open spec fn pairs_view(pairs: Seq<(Vec<u8>, Vec<u8>)>) -> Seq<(Seq<u8>, Seq<u8>)> {
    pairs.map_values(|p: (Vec<u8>, Vec<u8>)| (p.0@, p.1@))
}

/// Whether one of the writes of `MSET` is refused for want of memory.
pub open spec fn mset_fails(s: EngineView, pairs: Seq<(Seq<u8>, Seq<u8>)>) -> bool
    decreases pairs.len(),
{
    if pairs.len() == 0 {
        false
    } else {
        mset_fails(s, pairs.drop_last()) || mset_state(s, pairs.drop_last()).reply_to(
            pairs.last().0,
            set_outcome(pairs.last().1),
        ) is Err
    }
}

/// The state after the pairs have been written one after the other, up
/// to the first write that is refused.
pub open spec fn mset_state(s: EngineView, pairs: Seq<(Seq<u8>, Seq<u8>)>) -> EngineView
    decreases pairs.len(),
{
    if pairs.len() == 0 {
        s
    } else if mset_fails(s, pairs.drop_last()) {
        mset_state(s, pairs.drop_last())
    } else {
        mset_state(s, pairs.drop_last()).after(pairs.last().0, set_outcome(pairs.last().1))
    }
}

/// `MSET key value ...`: writes the pairs in order. If memory runs out
/// the pairs written so far stay and the rest are not written.
pub fn mset(engine: &mut StorageEngine, pairs: &Vec<(Vec<u8>, Vec<u8>)>) -> (given: Result<
    Value,
    RedisError,
>)
    requires
        old(engine).wf(),
    ensures
        final(engine).wf(),
        final(engine)@ == mset_state(old(engine)@, pairs_view(pairs@)),
        answers(
            given,
            if mset_fails(old(engine)@, pairs_view(pairs@)) {
                Err(ErrorKind::OutOfMemory)
            } else {
                Ok(ValueView::Okay)
            },
        ),
{
    let ghost start = engine@;
    let ghost all = pairs_view(pairs@);
    let mut i: usize = 0;
    while i < pairs.len()
        invariant
            i <= pairs.len(),
            all == pairs_view(pairs@),
            start == old(engine)@,
            engine.wf(),
            !mset_fails(start, all.take(i as int)),
            engine@ == mset_state(start, all.take(i as int)),
        decreases pairs.len() - i,
    {
        proof {
            assert(all.take(i as int + 1).drop_last() =~= all.take(i as int));
            assert(all.take(i as int + 1).last() == (pairs@[i as int].0@, pairs@[i as int].1@));
        }
        let key = &pairs[i].0;
        let value = copy_bytes(pairs[i].1.as_slice());
        let ghost here = engine@;
        let ghost next = all.take(i as int + 1);
        let done = set(engine, key.as_slice(), value);
        proof {
            assert(mset_state(start, next.drop_last()) == here);
            assert(mset_fails(start, next) == (here.reply_to(key@, set_outcome(value@)) is Err));
        }
        assert(mset_state(start, next) == here.after(key@, set_outcome(value@)));
        match done {
            Ok(_) => {},
            Err(_) => {
                proof {
                    lemma_mset_stops(start, all, i as int + 1);
                }
                return Err(RedisError::OutOfMemory);
            },
        }
        i += 1;
    }
    assert(all.take(i as int) =~= all);
    Ok(Value::Okay)
}

/// Once a write of `MSET` has been refused, nothing more happens.
pub proof fn lemma_mset_stops(s: EngineView, pairs: Seq<(Seq<u8>, Seq<u8>)>, n: int)
    requires
        0 <= n <= pairs.len(),
        mset_fails(s, pairs.take(n)),
    ensures
        mset_fails(s, pairs),
        mset_state(s, pairs) == mset_state(s, pairs.take(n)),
    decreases pairs.len() - n,
{
    if n == pairs.len() {
        assert(pairs.take(n) =~= pairs);
    } else {
        assert(pairs.take(n + 1).drop_last() =~= pairs.take(n));
        lemma_mset_stops(s, pairs, n + 1);
    }
}

/// The weight of the bit at position `pos` of a byte, counted from the
/// most significant bit.
pub open spec fn bit_weight(pos: int) -> int {
    if pos == 0 {
        128
    } else if pos == 1 {
        64
    } else if pos == 2 {
        32
    } else if pos == 3 {
        16
    } else if pos == 4 {
        8
    } else if pos == 5 {
        4
    } else if pos == 6 {
        2
    } else {
        1
    }
}

/// Whether the bit at position `pos` of `byte` is set.
pub open spec fn byte_bit(byte: u8, pos: int) -> bool {
    (byte as int / bit_weight(pos)) % 2 == 1
}

/// Whether the bit at `offset` of the string is set; bits beyond the
/// end are clear.
pub open spec fn bit_at(bytes: Seq<u8>, offset: int) -> bool {
    offset / 8 < bytes.len() && byte_bit(bytes[offset / 8], offset % 8)
}

/// `byte` with the bit at position `pos` set to `value`.
pub open spec fn with_bit(byte: u8, pos: int, value: bool) -> u8 {
    if byte_bit(byte, pos) == value {
        byte
    } else if value {
        (byte + bit_weight(pos)) as u8
    } else {
        (byte - bit_weight(pos)) as u8
    }
}

/// The string with the bit at `offset` set to `value`, grown with zero
/// bytes as far as the bit lies beyond its end.
pub open spec fn with_bit_at(bytes: Seq<u8>, offset: int, value: bool) -> Seq<u8> {
    let len = if bytes.len() > offset / 8 {
        bytes.len() as int
    } else {
        offset / 8 + 1
    };
    Seq::new(
        len as nat,
        |i: int|
            {
                let held = if i < bytes.len() {
                    bytes[i]
                } else {
                    0u8
                };
                if i == offset / 8 {
                    with_bit(held, offset % 8, value)
                } else {
                    held
                }
            },
    )
}

/// Number of bits set in `byte`.
pub open spec fn ones(byte: u8) -> int {
    (byte as int / 128) % 2 + (byte as int / 64) % 2 + (byte as int / 32) % 2 + (byte as int / 16)
        % 2 + (byte as int / 8) % 2 + (byte as int / 4) % 2 + (byte as int / 2) % 2 + byte as int
        % 2
}

/// Number of bits set in `bytes`.
pub open spec fn count_ones(bytes: Seq<u8>) -> int
    decreases bytes.len(),
{
    if bytes.len() == 0 {
        0
    } else {
        count_ones(bytes.drop_last()) + ones(bytes.last())
    }
}

/// The weight of the bit at position `pos`.
fn weight_of(pos: usize) -> (w: u8)
    requires
        pos < 8,
    ensures
        w == bit_weight(pos as int),
{
    if pos == 0 {
        128
    } else if pos == 1 {
        64
    } else if pos == 2 {
        32
    } else if pos == 3 {
        16
    } else if pos == 4 {
        8
    } else if pos == 5 {
        4
    } else if pos == 6 {
        2
    } else {
        1
    }
}

/// `GETBIT`: the bit at `offset`, as one or zero.
pub open spec fn getbit_reply(cur: Option<StoredValueView>, offset: int) -> Result<
    ValueView,
    ErrorKind,
> {
    match string_of(cur) {
        Some(bytes) => Ok(
            ValueView::Int(
                if bit_at(bytes, offset) {
                    1i64
                } else {
                    0i64
                },
            ),
        ),
        None => Err(ErrorKind::WrongType),
    }
}

/// `GETBIT key offset`.
pub fn getbit(engine: &mut StorageEngine, key: &[u8], offset: usize) -> (given: Result<
    Value,
    RedisError,
>)
    requires
        old(engine).wf(),
    ensures
        final(engine).wf(),
        final(engine)@ == old(engine)@.queried(key@),
        answers(given, getbit_reply(old(engine)@.live(key@), offset as int)),
{
    match engine.get(key) {
        None => Ok(Value::Int(0)),
        Some(entry) => match entry.data {
            RedisData::String(bytes) => {
                let at = offset / 8;
                if at < bytes.len() {
                    let w = weight_of(offset % 8);
                    if (bytes[at] / w) % 2 == 1 {
                        Ok(Value::Int(1))
                    } else {
                        Ok(Value::Int(0))
                    }
                } else {
                    Ok(Value::Int(0))
                }
            },
            _ => Err(RedisError::WrongType),
        },
    }
}

/// `SETBIT`: the bit at `offset` is set to `value`; the answer is the
/// bit that was there. An offset beyond the largest one accepted is an
/// invalid argument.
pub open spec fn setbit_outcome(cur: Option<StoredValueView>, offset: int, value: bool) -> Outcome {
    match string_of(cur) {
        Some(bytes) => if offset > MAX_BIT_OFFSET {
            failure(ErrorKind::InvalidArgument)
        } else {
            store(
                entry_of(
                    RedisDataView::String(with_bit_at(bytes, offset, value)),
                    deadline_of(cur),
                ),
                ValueView::Int(
                    if bit_at(bytes, offset) {
                        1i64
                    } else {
                        0i64
                    },
                ),
            )
        },
        None => failure(ErrorKind::WrongType),
    }
}

/// `SETBIT key offset value`.
pub fn setbit(engine: &mut StorageEngine, key: &[u8], offset: usize, value: bool) -> (given: Result<
    Value,
    RedisError,
>)
    requires
        old(engine).wf(),
    ensures
        final(engine).wf(),
        final(engine)@ == old(engine)@.after(
            key@,
            setbit_outcome(old(engine)@.live(key@), offset as int, value),
        ),
        answers(
            given,
            old(engine)@.reply_to(
                key@,
                setbit_outcome(old(engine)@.live(key@), offset as int, value),
            ),
        ),
{
    proof {
        lemma_purge_settles(engine@, key@);
    }
    let (bytes, expire_at) = match engine.peek(key) {
        None => (Vec::new(), None),
        Some(entry) => match entry.data {
            RedisData::String(bytes) => (bytes, entry.expire_at),
            _ => {
                return Err(RedisError::WrongType);
            },
        },
    };
    if offset > MAX_BIT_OFFSET {
        return Err(RedisError::InvalidArgument("bit offset is out of range".to_owned()));
    }
    let ghost before = bytes@;
    let mut bytes = bytes;
    let at = offset / 8;
    while bytes.len() <= at
        invariant
            before.len() <= bytes@.len(),
            bytes@.len() == before.len() || bytes@.len() <= at + 1,
            forall|i: int| 0 <= i < before.len() ==> bytes@[i] == before[i],
            forall|i: int| before.len() <= i < bytes@.len() ==> bytes@[i] == 0u8,
        decreases at + 1 - bytes@.len(),
    {
        bytes.push(0u8);
    }
    let w = weight_of(offset % 8);
    let held = bytes[at];
    let was = (held / w) % 2 == 1;
    if was != value {
        if value {
            assert(held + w <= 255) by {
                lemma_bit_room(held, (offset % 8) as int);
            }
            bytes[at] = held + w;
        } else {
            assert(held >= w) by {
                lemma_bit_room(held, (offset % 8) as int);
            }
            bytes[at] = held - w;
        }
    }
    assert(bytes@ =~= with_bit_at(before, offset as int, value));
    engine.store(
        key,
        RedisData::String(bytes),
        expire_at,
        Value::Int(
            if was {
                1
            } else {
                0
            },
        ),
    )
}

/// A clear bit can be set, and a set bit cleared, within the byte.
pub proof fn lemma_bit_room(byte: u8, pos: int)
    requires
        0 <= pos < 8,
    ensures
        !byte_bit(byte, pos) ==> byte + bit_weight(pos) <= 255,
        byte_bit(byte, pos) ==> byte >= bit_weight(pos),
{
    let b = byte as int;
    if pos == 0 {
        assert((b / 128) % 2 == 0 ==> b < 128);
    } else if pos == 1 {
        assert((b / 64) % 2 == 0 ==> b + 64 <= 255);
    } else if pos == 2 {
        assert((b / 32) % 2 == 0 ==> b + 32 <= 255);
    } else if pos == 3 {
        assert((b / 16) % 2 == 0 ==> b + 16 <= 255);
    } else if pos == 4 {
        assert((b / 8) % 2 == 0 ==> b + 8 <= 255);
    } else if pos == 5 {
        assert((b / 4) % 2 == 0 ==> b + 4 <= 255);
    } else if pos == 6 {
        assert((b / 2) % 2 == 0 ==> b + 2 <= 255);
    } else {
        assert(b % 2 == 0 ==> b + 1 <= 255);
    }
}

/// `BITCOUNT`: the number of bits set in the string.
pub open spec fn bitcount_reply(cur: Option<StoredValueView>) -> Result<ValueView, ErrorKind> {
    match string_of(cur) {
        Some(bytes) => Ok(ValueView::Int(count_ones(bytes) as i64)),
        None => Err(ErrorKind::WrongType),
    }
}

/// `BITCOUNT` over the bytes from `start` to `end`, both included.
pub open spec fn bitcount_range_reply(cur: Option<StoredValueView>, start: int, end: int) -> Result<
    ValueView,
    ErrorKind,
> {
    match string_of(cur) {
        Some(bytes) => Ok(ValueView::Int(count_ones(slice_of(bytes, start, end)) as i64)),
        None => Err(ErrorKind::WrongType),
    }
}

/// Counts the bits set in `bytes[lo..hi]`.
fn count_bits(bytes: &[u8], lo: usize, hi: usize) -> (n: u128)
    requires
        lo <= hi <= bytes.len(),
    ensures
        n == count_ones(bytes@.subrange(lo as int, hi as int)),
        n <= 8 * (hi - lo),
{
    let mut n: u128 = 0;
    let mut i: usize = lo;
    assert(bytes@.subrange(lo as int, lo as int) =~= Seq::<u8>::empty());
    while i < hi
        invariant
            lo <= i <= hi <= bytes.len(),
            n == count_ones(bytes@.subrange(lo as int, i as int)),
            n <= 8 * (i - lo),
        decreases hi - i,
    {
        let b = bytes[i];
        let k: u8 = (b / 128) % 2 + (b / 64) % 2 + (b / 32) % 2 + (b / 16) % 2 + (b / 8) % 2 + (b
            / 4) % 2 + (b / 2) % 2 + b % 2;
        assert(bytes@.subrange(lo as int, i as int + 1).drop_last() =~= bytes@.subrange(
            lo as int,
            i as int,
        ));
        n = n + k as u128;
        i += 1;
    }
    n
}

/// `BITCOUNT key`.
pub fn bitcount(engine: &mut StorageEngine, key: &[u8]) -> (given: Result<Value, RedisError>)
    requires
        old(engine).wf(),
    ensures
        final(engine).wf(),
        final(engine)@ == old(engine)@.queried(key@),
        answers(given, bitcount_reply(old(engine)@.live(key@))),
{
    match engine.get(key) {
        None => Ok(Value::Int(0)),
        Some(entry) => match entry.data {
            RedisData::String(bytes) => {
                let n = count_bits(bytes.as_slice(), 0, bytes.len());
                assert(bytes@.subrange(0, bytes@.len() as int) =~= bytes@);
                Ok(Value::Int(n as i64))
            },
            _ => Err(RedisError::WrongType),
        },
    }
}

/// `BITCOUNT key start end`.
pub fn bitcount_range(engine: &mut StorageEngine, key: &[u8], start: isize, end: isize) -> (given:
    Result<Value, RedisError>)
    requires
        old(engine).wf(),
    ensures
        final(engine).wf(),
        final(engine)@ == old(engine)@.queried(key@),
        answers(given, bitcount_range_reply(old(engine)@.live(key@), start as int, end as int)),
{
    match engine.get(key) {
        None => {
            assert(slice_of(Seq::<u8>::empty(), start as int, end as int) =~= Seq::<u8>::empty());
            Ok(Value::Int(0))
        },
        Some(entry) => match entry.data {
            RedisData::String(bytes) => {
                let (lo, hi) = resolve_span(bytes.len(), start, end);
                let n = count_bits(bytes.as_slice(), lo, hi);
                Ok(Value::Int(n as i64))
            },
            _ => Err(RedisError::WrongType),
        },
    }
}

} // verus!
