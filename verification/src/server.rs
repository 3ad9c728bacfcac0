//! Operations on the store as a whole.

use vstd::prelude::*;
use vstd::utf8::encode_utf8;
use crate::bytes::copy_bytes;
use crate::engine::StorageEngine;
use crate::error::RedisError;
use crate::keys::text_value;
use crate::ops::answers;
use crate::value::{Value, ValueView, views_of};

verus! {

/// `PING`: answers `PONG`.
pub fn ping(engine: &StorageEngine) -> (given: Result<Value, RedisError>)
    ensures
        answers(given, Ok(ValueView::String(encode_utf8("PONG"@)))),
{
    Ok(text_value("PONG"))
}

/// `ECHO message`: answers the message.
pub fn echo(engine: &StorageEngine, message: &[u8]) -> (given: Result<Value, RedisError>)
    ensures
        answers(given, Ok(ValueView::String(message@))),
{
    Ok(Value::String(copy_bytes(message)))
}

/// `DBSIZE`: the number of live keys. Entries past their deadline are
/// swept first.
pub fn dbsize(engine: &mut StorageEngine) -> (given: Result<Value, RedisError>)
    requires
        old(engine).wf(),
    ensures
        final(engine).wf(),
        final(engine)@ == old(engine)@.swept(),
        answers(given, Ok(ValueView::Int(old(engine)@.swept().entries.dom().len() as i64))),
        forall|k: Seq<u8>| #[trigger]
            final(engine)@.entries.contains_key(k) ==> !final(engine)@.is_expired(k),
{
    engine.sweep();
    Ok(Value::Int(engine.len() as i64))
}

/// `FLUSHDB`: drops every key and resets the accountant and the
/// schedule.
pub fn flushdb(engine: &mut StorageEngine) -> (given: Result<Value, RedisError>)
    ensures
        final(engine).wf(),
        final(engine)@ == old(engine)@.flushed(),
        answers(given, Ok(ValueView::Okay)),
{
    engine.flush();
    Ok(Value::Okay)
}

/// `FLUSHALL`: the same as `FLUSHDB`, there being one database.
pub fn flushall(engine: &mut StorageEngine) -> (given: Result<Value, RedisError>)
    ensures
        final(engine).wf(),
        final(engine)@ == old(engine)@.flushed(),
        answers(given, Ok(ValueView::Okay)),
{
    engine.flush();
    Ok(Value::Okay)
}

/// A wall-clock time as seconds since the epoch and the microseconds
/// within the second.
pub open spec fn time_parts(wall_us: u64) -> Seq<ValueView> {
    seq![
        ValueView::Int((wall_us / 1_000_000) as i64),
        ValueView::Int((wall_us % 1_000_000) as i64),
    ]
}

/// `TIME`: the wall-clock time last observed, as seconds since the epoch
/// and the microseconds within the second.
pub fn time(engine: &StorageEngine) -> (given: Result<Value, RedisError>)
    ensures
        answers(given, Ok(ValueView::Array(time_parts(engine@.wall_us)))),
{
    let wall = engine.wall_clock_us();
    let mut parts: Vec<Value> = Vec::new();
    parts.push(Value::Int((wall / 1_000_000) as i64));
    parts.push(Value::Int((wall % 1_000_000) as i64));
    assert(views_of(parts@) =~= seq![
        ValueView::Int((wall / 1_000_000) as i64),
        ValueView::Int((wall % 1_000_000) as i64),
    ]);
    Ok(Value::array(parts))
}

/// `LASTSAVE`: there being nothing to save, the wall-clock time first
/// observed, in seconds since the epoch.
pub fn lastsave(engine: &StorageEngine) -> (given: Result<Value, RedisError>)
    ensures
        answers(
            given,
            Ok(
                ValueView::Int(
                    match engine@.started_s {
                        Some(s) => s as i64,
                        None => 0i64,
                    },
                ),
            ),
        ),
{
    Ok(Value::Int(engine.started_at() as i64))
}

} // verus!
