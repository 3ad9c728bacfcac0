//! Operations on keys whatever they hold: removal, renaming, copying,
//! listing, and the lifetime of entries.

use vstd::prelude::*;

use vstd::utf8::encode_utf8;
use crate::bytes::{bytes_eq, copy_bytes};
use crate::engine::{StorageEngine, deadline_after};
use crate::error::RedisError;
use crate::glob::{glob_match, glob_matches, glob_valid, is_valid_pattern};
use crate::model::EngineView;
use crate::ops::{ErrorKind, Outcome, answer, answers, delete, failure, lemma_purge_settles, store};
use crate::sets::{flag, flag_value};
use crate::text::string_from_utf8;
use crate::types::{Kind, StoredValueView, list_view};
use crate::value::{Value, ValueView, strings_of};

verus! {

/// `DEL`: the key is removed; the answer says whether it held a live
/// entry.
pub open spec fn del_outcome(cur: Option<StoredValueView>) -> Outcome {
    match cur {
        Some(_) => delete(flag(true)),
        None => answer(flag(false)),
    }
}

/// `DEL key`.
pub fn del(engine: &mut StorageEngine, key: &[u8]) -> (given: Result<Value, RedisError>)
    requires
        old(engine).wf(),
    ensures
        final(engine).wf(),
        final(engine)@ == old(engine)@.after(key@, del_outcome(old(engine)@.live(key@))),
        answers(given, old(engine)@.reply_to(key@, del_outcome(old(engine)@.live(key@)))),
{
    proof {
        lemma_purge_settles(engine@, key@);
        crate::model::lemma_drop_key(engine@, key@);
        crate::model::lemma_drop_key(engine@.purge(key@), key@);
    }
    let removed = engine.remove(key);
    proof {
        assert(old(engine)@.purge(key@).drop_key(key@) == old(engine)@.drop_key(key@)) by {
            lemma_drop_twice(old(engine)@, key@);
        }
    }
    Ok(flag_value(removed))
}

/// Dropping a key that has been dropped changes nothing.
pub proof fn lemma_drop_twice(s: EngineView, key: Seq<u8>)
    requires
        s.wf(),
    ensures
        s.drop_key(key).drop_key(key) == s.drop_key(key),
        s.purge(key).drop_key(key) == s.drop_key(key),
{
    crate::model::lemma_drop_key(s, key);
    crate::model::lemma_drop_key(s.drop_key(key), key);
}

/// `UNLINK key`: the same as `DEL`.
pub fn unlink(engine: &mut StorageEngine, key: &[u8]) -> (given: Result<Value, RedisError>)
    requires
        old(engine).wf(),
    ensures
        final(engine).wf(),
        final(engine)@ == old(engine)@.after(key@, del_outcome(old(engine)@.live(key@))),
        answers(given, old(engine)@.reply_to(key@, del_outcome(old(engine)@.live(key@)))),
{
    del(engine, key)
}

/// `EXISTS`: whether the key holds a live entry.
pub open spec fn exists_outcome(cur: Option<StoredValueView>) -> Outcome {
    answer(flag(cur is Some))
}

/// `EXISTS key`.
pub fn key_exists(engine: &mut StorageEngine, key: &[u8]) -> (given: Result<Value, RedisError>)
    requires
        old(engine).wf(),
    ensures
        final(engine).wf(),
        final(engine)@ == old(engine)@.after(key@, exists_outcome(old(engine)@.live(key@))),
        answers(given, old(engine)@.reply_to(key@, exists_outcome(old(engine)@.live(key@)))),
{
    Ok(flag_value(engine.key_exists(key)))
}

/// The name of a kind of value; `none` where there is no value.
pub open spec fn kind_name(cur: Option<StoredValueView>) -> Seq<char> {
    match cur {
        None => "none"@,
        Some(entry) => match entry.data.kind() {
            Kind::String => "string"@,
            Kind::List => "list"@,
            Kind::SetOf => "set"@,
            Kind::Hash => "hash"@,
            Kind::ZSet => "zset"@,
        },
    }
}

/// A string reply holding `text`.
pub fn text_value(text: &str) -> (v: Value)
    ensures
        v@ == ValueView::String(encode_utf8(text@)),
{
    Value::String(copy_bytes(text.as_bytes()))
}

/// `TYPE key`: the name of the kind of value that the key holds.
pub fn key_type(engine: &mut StorageEngine, key: &[u8]) -> (given: Result<Value, RedisError>)
    requires
        old(engine).wf(),
    ensures
        final(engine).wf(),
        final(engine)@ == old(engine)@.purge(key@),
        answers(given, Ok(ValueView::String(encode_utf8(kind_name(old(engine)@.live(key@)))))),
{
    match engine.peek(key) {
        None => Ok(text_value("none")),
        Some(entry) => match entry.data.kind() {
            Kind::String => Ok(text_value("string")),
            Kind::List => Ok(text_value("list")),
            Kind::SetOf => Ok(text_value("set")),
            Kind::Hash => Ok(text_value("hash")),
            Kind::ZSet => Ok(text_value("zset")),
        },
    }
}

/// The live keys that `pattern` matches.
pub open spec fn matching_keys(s: EngineView, pattern: Seq<u8>) -> Set<Seq<u8>> {
    Set::new(|k: Seq<u8>| s.entries.contains_key(k) && glob_matches(pattern, k))
}

/// `KEYS pattern`: every live key that the pattern matches, once, in no
/// particular order. Entries past their deadline are swept first. A
/// pattern that is not well formed is an invalid argument.
pub fn keys(engine: &mut StorageEngine, pattern: &[u8]) -> (given: Result<Value, RedisError>)
    requires
        old(engine).wf(),
    ensures
        final(engine).wf(),
        !glob_valid(pattern@) ==> final(engine)@ == old(engine)@ && given is Err
            && given->Err_0 is InvalidArgument,
        glob_valid(pattern@) ==> final(engine)@ == old(engine)@.swept() && given is Ok
            && exists|found: Seq<Seq<u8>>|
            {
                &&& given->Ok_0@ == ValueView::Array(strings_of(found))
                &&& found.no_duplicates()
                &&& found.to_set() == matching_keys(old(engine)@.swept(), pattern@)
            },
{
    if !is_valid_pattern(pattern) {
        return Err(RedisError::InvalidArgument("pattern is not well formed".to_owned()));
    }
    engine.sweep();
    let all = engine.keys();
    let ghost held = list_view(all@);
    let ghost state = engine@;
    let mut found: Vec<Vec<u8>> = Vec::new();
    let mut i: usize = 0;
    while i < all.len()
        invariant
            i <= all.len(),
            held == list_view(all@),
            held.no_duplicates(),
            list_view(found@).no_duplicates(),
            forall|k: Seq<u8>| #[trigger]
                list_view(found@).contains(k) <==> held.take(i as int).contains(k)
                    && glob_matches(pattern@, k),
        decreases all.len() - i,
    {
        let ghost so_far = list_view(found@);
        let ghost key = held[i as int];
        let ghost prev = held.take(i as int);
        let ghost next = held.take(i as int + 1);
        proof {
            assert(next =~= prev.push(key));
            assert(!prev.contains(key)) by {
                if prev.contains(key) {
                    let j = choose|j: int| 0 <= j < prev.len() && prev[j] == key;
                    assert(held[j] == held[i as int]);
                }
            }
        }
        if glob_match(pattern, all[i].as_slice()) {
            found.push(copy_bytes(all[i].as_slice()));
            let ghost grown = so_far.push(key);
            assert(list_view(found@) =~= grown);
            proof {
                assert forall|k: Seq<u8>| #[trigger]
                    grown.contains(k) <==> next.contains(k) && glob_matches(pattern@, k) by {
                    if grown.contains(k) {
                        let j = choose|j: int| 0 <= j < grown.len() && grown[j] == k;
                        if j < so_far.len() {
                            assert(so_far[j] == k);
                            assert(so_far.contains(k));
                            let m = choose|m: int| 0 <= m < prev.len() && prev[m] == k;
                            assert(next[m] == k);
                        } else {
                            assert(next[i as int] == k);
                        }
                    }
                    if next.contains(k) && glob_matches(pattern@, k) {
                        let m = choose|m: int| 0 <= m < next.len() && next[m] == k;
                        if m < i {
                            assert(prev[m] == k);
                            assert(prev.contains(k));
                            assert(so_far.contains(k));
                            let j = choose|j: int| 0 <= j < so_far.len() && so_far[j] == k;
                            assert(grown[j] == k);
                        } else {
                            assert(grown[so_far.len() as int] == k);
                        }
                    }
                }
                assert forall|a: int, b: int|
                    0 <= a < grown.len() && 0 <= b < grown.len() && a != b implies grown[a]
                    != grown[b] by {
                    if a < so_far.len() {
                        assert(so_far.contains(so_far[a]));
                    }
                    if b < so_far.len() {
                        assert(so_far.contains(so_far[b]));
                    }
                }
            }
        } else {
            proof {
                assert forall|k: Seq<u8>| #[trigger]
                    so_far.contains(k) <==> next.contains(k) && glob_matches(pattern@, k) by {
                    if so_far.contains(k) {
                        let m = choose|m: int| 0 <= m < prev.len() && prev[m] == k;
                        assert(next[m] == k);
                    }
                    if next.contains(k) && glob_matches(pattern@, k) {
                        let m = choose|m: int| 0 <= m < next.len() && next[m] == k;
                        assert(m < i);
                        assert(prev[m] == k);
                    }
                }
            }
        }
        i += 1;
    }
    proof {
        assert(held.take(i as int) =~= held);
        let names = list_view(found@);
        assert(names.to_set() =~= matching_keys(state, pattern@)) by {
            assert forall|k: Seq<u8>| names.to_set().contains(k) <==> matching_keys(
                state,
                pattern@,
            ).contains(k) by {
                assert(names.to_set().contains(k) <==> names.contains(k));
                assert(held.to_set().contains(k) <==> held.contains(k));
            }
        }
    }
    Ok(Value::strings(found))
}

/// What `RENAME` does to the state: the live entry under `src` moves to
/// `dst`, deadline and all. Nothing moves if `src` is absent, if the two
/// names are the same, or if memory runs out.
pub open spec fn rename_state(s: EngineView, src: Seq<u8>, dst: Seq<u8>) -> EngineView {
    let seen = s.purge(src);
    if !seen.entries.contains_key(src) || src == dst {
        seen
    } else {
        let moved = store(seen.entries[src], ValueView::Okay);
        if seen.reply_to(dst, moved) is Err {
            seen.after(dst, moved)
        } else {
            seen.after(dst, moved).drop_key(src)
        }
    }
}

/// What `RENAME` answers.
pub open spec fn rename_reply(s: EngineView, src: Seq<u8>, dst: Seq<u8>) -> Result<
    ValueView,
    ErrorKind,
> {
    let seen = s.purge(src);
    if !seen.entries.contains_key(src) {
        Err(ErrorKind::NoSuchKey)
    } else if src == dst {
        Ok(ValueView::Okay)
    } else {
        seen.reply_to(dst, store(seen.entries[src], ValueView::Okay))
    }
}

/// The name under which a key is reported: the text that its bytes
/// encode, or no text at all if they encode none.
pub open spec fn key_text(key: Seq<u8>) -> Seq<char> {
    if vstd::utf8::valid_utf8(key) {
        vstd::utf8::decode_utf8(key)
    } else {
        Seq::empty()
    }
}

/// The failure to report for a key that is not there: it names the key.
fn no_such_key(key: &[u8]) -> (e: RedisError)
    ensures
        e is NoSuchKey,
        e->NoSuchKey_0@ == key_text(key@),
{
    match string_from_utf8(copy_bytes(key)) {
        Some(text) => RedisError::NoSuchKey(text),
        None => RedisError::NoSuchKey(String::new()),
    }
}

/// `RENAME src dst`.
pub fn rename(engine: &mut StorageEngine, src: &[u8], dst: &[u8]) -> (given: Result<
    Value,
    RedisError,
>)
    requires
        old(engine).wf(),
    ensures
        final(engine).wf(),
        final(engine)@ == rename_state(old(engine)@, src@, dst@),
        answers(given, rename_reply(old(engine)@, src@, dst@)),
{
    proof {
        lemma_purge_settles(engine@, src@);
    }
    match engine.peek(src) {
        None => Err(no_such_key(src)),
        Some(entry) => {
            if bytes_eq(src, dst) {
                return Ok(Value::Okay);
            }
            let ghost seen = engine@;
            proof {
                lemma_purge_settles(seen, dst@);
            }
            engine.purge_expired(dst);
            match engine.store(dst, entry.data, entry.expire_at, Value::Okay) {
                Ok(done) => {
                    engine.remove(src);
                    Ok(done)
                },
                Err(e) => Err(e),
            }
        },
    }
}

/// What `RENAMENX` does to the state: as `RENAME`, but nothing moves if
/// `dst` holds a live entry.
pub open spec fn rename_nx_state(s: EngineView, src: Seq<u8>, dst: Seq<u8>) -> EngineView {
    let seen = s.purge(src);
    if !seen.entries.contains_key(src) {
        seen
    } else if seen.live(dst) is Some {
        seen.purge(dst)
    } else {
        rename_state(s, src, dst)
    }
}

/// What `RENAMENX` answers: one if the entry moved, zero if `dst` holds
/// a live entry.
pub open spec fn rename_nx_reply(s: EngineView, src: Seq<u8>, dst: Seq<u8>) -> Result<
    ValueView,
    ErrorKind,
> {
    let seen = s.purge(src);
    if !seen.entries.contains_key(src) {
        Err(ErrorKind::NoSuchKey)
    } else if seen.live(dst) is Some {
        Ok(flag(false))
    } else {
        match rename_reply(s, src, dst) {
            Ok(_) => Ok(flag(true)),
            Err(kind) => Err(kind),
        }
    }
}

/// `RENAMENX src dst`.
pub fn rename_nx(engine: &mut StorageEngine, src: &[u8], dst: &[u8]) -> (given: Result<
    Value,
    RedisError,
>)
    requires
        old(engine).wf(),
    ensures
        final(engine).wf(),
        final(engine)@ == rename_nx_state(old(engine)@, src@, dst@),
        answers(given, rename_nx_reply(old(engine)@, src@, dst@)),
{
    proof {
        lemma_purge_settles(engine@, src@);
    }
    match engine.peek(src) {
        None => Err(no_such_key(src)),
        Some(entry) => {
            let ghost seen = engine@;
            proof {
                lemma_purge_settles(seen, dst@);
                lemma_purge_settles(seen, src@);
            }
            if engine.key_exists(dst) {
                return Ok(Value::Int(0));
            }
            match engine.store(dst, entry.data, entry.expire_at, Value::Int(1)) {
                Ok(done) => {
                    engine.remove(src);
                    Ok(done)
                },
                Err(e) => Err(e),
            }
        },
    }
}

/// What `COPY` does to the state: `dst` is given a copy of the live entry
/// under `src`, deadline and all, unless `src` is absent or `dst` holds
/// a live entry.
pub open spec fn copy_state(s: EngineView, src: Seq<u8>, dst: Seq<u8>) -> EngineView {
    let seen = s.purge(src);
    if !seen.entries.contains_key(src) {
        seen
    } else if seen.live(dst) is Some {
        seen.purge(dst)
    } else {
        seen.after(dst, store(seen.entries[src], flag(true)))
    }
}

/// What `COPY` answers: one if the copy was made, zero if not.
pub open spec fn copy_reply(s: EngineView, src: Seq<u8>, dst: Seq<u8>) -> Result<
    ValueView,
    ErrorKind,
> {
    let seen = s.purge(src);
    if !seen.entries.contains_key(src) || seen.live(dst) is Some {
        Ok(flag(false))
    } else {
        seen.reply_to(dst, store(seen.entries[src], flag(true)))
    }
}

/// `COPY src dst`.
pub fn copy(engine: &mut StorageEngine, src: &[u8], dst: &[u8]) -> (given: Result<
    Value,
    RedisError,
>)
    requires
        old(engine).wf(),
    ensures
        final(engine).wf(),
        final(engine)@ == copy_state(old(engine)@, src@, dst@),
        answers(given, copy_reply(old(engine)@, src@, dst@)),
{
    proof {
        lemma_purge_settles(engine@, src@);
    }
    match engine.peek(src) {
        None => Ok(Value::Int(0)),
        Some(entry) => {
            let ghost seen = engine@;
            proof {
                lemma_purge_settles(seen, dst@);
            }
            if engine.key_exists(dst) {
                return Ok(Value::Int(0));
            }
            engine.store(dst, entry.data, entry.expire_at, Value::Int(1))
        },
    }
}

/// The lifetime `amount * unit` in milliseconds, or the longest lifetime
/// there is if that lies beyond it.
pub open spec fn lifetime_ms(amount: i64, unit: int) -> u64 {
    if amount * unit > u64::MAX {
        u64::MAX
    } else {
        (amount * unit) as u64
    }
}

/// `EXPIRE` and `PEXPIRE`: the live entry under `key` is given the
/// deadline `lifetime` milliseconds from now. A negative lifetime is an
/// invalid argument and changes nothing.
pub open spec fn expire_state(s: EngineView, key: Seq<u8>, amount: i64, unit: int) -> EngineView {
    if amount < 0 {
        s
    } else {
        s.with_expiry(key, Some(deadline_after(s.now, lifetime_ms(amount, unit))))
    }
}

/// What `EXPIRE` and its kin answer: whether the key holds a live entry.
pub open spec fn expire_reply(s: EngineView, key: Seq<u8>, amount: i64) -> Result<
    ValueView,
    ErrorKind,
> {
    if amount < 0 {
        Err(ErrorKind::InvalidArgument)
    } else {
        Ok(flag(s.live(key) is Some))
    }
}

/// `EXPIRE key seconds`.
pub fn expire(engine: &mut StorageEngine, key: &[u8], seconds: i64) -> (given: Result<
    Value,
    RedisError,
>)
    requires
        old(engine).wf(),
    ensures
        final(engine).wf(),
        final(engine)@ == expire_state(old(engine)@, key@, seconds, 1000),
        answers(given, expire_reply(old(engine)@, key@, seconds)),
{
    if seconds < 0 {
        return Err(RedisError::InvalidArgument("lifetime is negative".to_owned()));
    }
    let amount = seconds as u64;
    let ms: u64 = if amount > u64::MAX / 1000 {
        u64::MAX
    } else {
        amount * 1000
    };
    Ok(flag_value(engine.set_expiry(key, ms)))
}

/// `PEXPIRE key milliseconds`.
pub fn pexpire(engine: &mut StorageEngine, key: &[u8], ms: i64) -> (given: Result<
    Value,
    RedisError,
>)
    requires
        old(engine).wf(),
    ensures
        final(engine).wf(),
        final(engine)@ == expire_state(old(engine)@, key@, ms, 1),
        answers(given, expire_reply(old(engine)@, key@, ms)),
{
    if ms < 0 {
        return Err(RedisError::InvalidArgument("lifetime is negative".to_owned()));
    }
    Ok(flag_value(engine.set_expiry(key, ms as u64)))
}

/// Milliseconds from the wall-clock time last observed until the
/// wall-clock time `at_ms`; zero if that time has passed.
pub open spec fn until_wall(s: EngineView, at_ms: int) -> u64 {
    if at_ms <= s.wall_us / 1000 {
        0
    } else if at_ms - s.wall_us / 1000 > u64::MAX {
        u64::MAX
    } else {
        (at_ms - s.wall_us / 1000) as u64
    }
}

/// `EXPIREAT` and `PEXPIREAT`: the live entry under `key` is given the
/// deadline that corresponds to the wall-clock time `at`, by the
/// difference between that time and the wall-clock time last observed.
/// A negative time is an invalid argument and changes nothing.
pub open spec fn expire_at_state(s: EngineView, key: Seq<u8>, at: i64, unit: int) -> EngineView {
    if at < 0 {
        s
    } else {
        s.with_expiry(key, Some(deadline_after(s.now, until_wall(s, at * unit))))
    }
}

/// `PEXPIREAT key milliseconds-since-epoch`.
pub fn pexpire_at(engine: &mut StorageEngine, key: &[u8], at_ms: i64) -> (given: Result<
    Value,
    RedisError,
>)
    requires
        old(engine).wf(),
    ensures
        final(engine).wf(),
        final(engine)@ == expire_at_state(old(engine)@, key@, at_ms, 1),
        answers(given, expire_reply(old(engine)@, key@, at_ms)),
{
    if at_ms < 0 {
        return Err(RedisError::InvalidArgument("time is negative".to_owned()));
    }
    let wall_ms = engine.wall_clock_us() / 1000;
    let at = at_ms as u64;
    let left: u64 = if at <= wall_ms {
        0
    } else {
        at - wall_ms
    };
    Ok(flag_value(engine.set_expiry(key, left)))
}

/// `EXPIREAT key seconds-since-epoch`.
pub fn expire_at(engine: &mut StorageEngine, key: &[u8], at_s: i64) -> (given: Result<
    Value,
    RedisError,
>)
    requires
        old(engine).wf(),
    ensures
        final(engine).wf(),
        final(engine)@ == expire_at_state(old(engine)@, key@, at_s, 1000),
        answers(given, expire_reply(old(engine)@, key@, at_s)),
{
    if at_s < 0 {
        return Err(RedisError::InvalidArgument("time is negative".to_owned()));
    }
    let wall_ms = engine.wall_clock_us() / 1000;
    let at: u128 = (at_s as u128) * 1000;
    let left: u64 = if at <= wall_ms as u128 {
        0
    } else if at - wall_ms as u128 > u64::MAX as u128 {
        u64::MAX
    } else {
        (at - wall_ms as u128) as u64
    };
    Ok(flag_value(engine.set_expiry(key, left)))
}

/// `TTL key`: seconds left, `-1` without a deadline, `-2` without a live
/// entry.
pub fn ttl(engine: &mut StorageEngine, key: &[u8]) -> (given: Result<Value, RedisError>)
    requires
        old(engine).wf(),
    ensures
        final(engine).wf(),
        final(engine)@ == old(engine)@.purge(key@),
        answers(given, Ok(ValueView::Int(old(engine)@.ttl_reply(key@, 1000)))),
{
    Ok(Value::Int(engine.ttl_query(key)))
}

/// `PTTL key`: milliseconds left, `-1` without a deadline, `-2` without
/// a live entry.
pub fn pttl(engine: &mut StorageEngine, key: &[u8]) -> (given: Result<Value, RedisError>)
    requires
        old(engine).wf(),
    ensures
        final(engine).wf(),
        final(engine)@ == old(engine)@.purge(key@),
        answers(given, Ok(ValueView::Int(old(engine)@.ttl_reply(key@, 1)))),
{
    Ok(Value::Int(engine.pttl_query(key, 1)))
}

/// `PERSIST key`: the deadline of the live entry is cleared; the answer
/// says whether the key holds a live entry.
pub fn persist(engine: &mut StorageEngine, key: &[u8]) -> (given: Result<Value, RedisError>)
    requires
        old(engine).wf(),
    ensures
        final(engine).wf(),
        final(engine)@ == old(engine)@.with_expiry(key@, None),
        answers(given, Ok(flag(old(engine)@.live(key@) is Some))),
{
    Ok(flag_value(engine.persist(key)))
}

/// The wall-clock time, in seconds since the epoch, at which the live
/// entry under `key` expires, going by the clocks last observed; `-1`
/// without a deadline, `-2` without a live entry.
pub open spec fn expire_time_of(s: EngineView, key: Seq<u8>) -> i64 {
    match s.live(key) {
        Some(entry) => match entry.expire_at {
            Some(at) => {
                let when = (s.wall_us / 1000 + (at - s.now)) / 1000;
                if when > i64::MAX {
                    i64::MAX
                } else {
                    when as i64
                }
            },
            None => -1i64,
        },
        None => -2i64,
    }
}

/// `EXPIRETIME key`.
pub fn expire_time(engine: &mut StorageEngine, key: &[u8]) -> (given: Result<Value, RedisError>)
    requires
        old(engine).wf(),
    ensures
        final(engine).wf(),
        final(engine)@ == old(engine)@.purge(key@),
        answers(given, Ok(ValueView::Int(expire_time_of(old(engine)@, key@)))),
{
    let wall_ms = engine.wall_clock_us() / 1000;
    match engine.peek(key) {
        None => Ok(Value::Int(-2)),
        Some(entry) => match entry.expire_at {
            None => Ok(Value::Int(-1)),
            Some(at) => {
                let left = at - engine.now_ms();
                let when: u128 = (wall_ms as u128 + left as u128) / 1000;
                if when > i64::MAX as u128 {
                    Ok(Value::Int(i64::MAX))
                } else {
                    Ok(Value::Int(when as i64))
                }
            },
        },
    }
}

} // verus!
