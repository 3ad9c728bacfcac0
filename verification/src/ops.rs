//! How an operation on one key is put together: look at the live entry,
//! decide what becomes of it and what to answer, then carry that out.

use vstd::prelude::*;
use crate::engine::StorageEngine;
use crate::error::RedisError;
use crate::model::EngineView;
use crate::types::{RedisData, StoredValue, StoredValueView};
use crate::value::{Value, ValueView};

verus! {

/// The kinds of failure, without their details.
#[derive(Debug, Clone, Copy, PartialEq, Eq, Structural)]
pub enum ErrorKind {
    ParseError,
    NoSuchKey,
    WrongType,
    NotSupported,
    CommandNotFound,
    InvalidArgument,
    IoError,
    OutOfMemory,
    Unknown,
}

impl RedisError {
    /// The kind of this failure.
    pub open spec fn kind_view(self) -> ErrorKind {
        match self {
            RedisError::ParseError => ErrorKind::ParseError,
            RedisError::NoSuchKey(_) => ErrorKind::NoSuchKey,
            RedisError::WrongType => ErrorKind::WrongType,
            RedisError::NotSupported => ErrorKind::NotSupported,
            RedisError::CommandNotFound(_) => ErrorKind::CommandNotFound,
            RedisError::InvalidArgument(_) => ErrorKind::InvalidArgument,
            RedisError::IoError(_) => ErrorKind::IoError,
            RedisError::OutOfMemory => ErrorKind::OutOfMemory,
            RedisError::Unknown(_) => ErrorKind::Unknown,
        }
    }

    /// The kind of this failure.
    pub fn kind(&self) -> (kind: ErrorKind)
        ensures
            kind == self.kind_view(),
    {
        match self {
            RedisError::ParseError => ErrorKind::ParseError,
            RedisError::NoSuchKey(_) => ErrorKind::NoSuchKey,
            RedisError::WrongType => ErrorKind::WrongType,
            RedisError::NotSupported => ErrorKind::NotSupported,
            RedisError::CommandNotFound(_) => ErrorKind::CommandNotFound,
            RedisError::InvalidArgument(_) => ErrorKind::InvalidArgument,
            RedisError::IoError(_) => ErrorKind::IoError,
            RedisError::OutOfMemory => ErrorKind::OutOfMemory,
            RedisError::Unknown(_) => ErrorKind::Unknown,
        }
    }
}

/// What an operation does to the key it works on.
pub enum Change {
    /// The key stays as it is.
    Keep,
    /// The key is given this entry.
    Store(StoredValueView),
    /// The key is removed.
    Delete,
}

/// What an operation decides: the fate of its key and its answer.
pub struct Outcome {
    pub change: Change,
    pub reply: Result<ValueView, ErrorKind>,
}

/// The outcome of an operation that fails and leaves its key alone.
pub open spec fn failure(kind: ErrorKind) -> Outcome {
    Outcome { change: Change::Keep, reply: Err(kind) }
}

/// The outcome of an operation that answers and leaves its key alone.
pub open spec fn answer(reply: ValueView) -> Outcome {
    Outcome { change: Change::Keep, reply: Ok(reply) }
}

/// The outcome of an operation that stores `entry` and answers.
pub open spec fn store(entry: StoredValueView, reply: ValueView) -> Outcome {
    Outcome { change: Change::Store(entry), reply: Ok(reply) }
}

/// The outcome of an operation that removes its key and answers.
pub open spec fn delete(reply: ValueView) -> Outcome {
    Outcome { change: Change::Delete, reply: Ok(reply) }
}

/// Whether `given` is the reply `expected`: the same value, or a failure
/// of the same kind.
pub open spec fn answers(
    given: Result<Value, RedisError>,
    expected: Result<ValueView, ErrorKind>,
) -> bool {
    match given {
        Ok(v) => expected == Ok::<ValueView, ErrorKind>(v@),
        Err(e) => expected == Err::<ValueView, ErrorKind>(e.kind_view()),
    }
}

impl EngineView {
    /// The state after an operation on `key` with this outcome: an entry
    /// past its deadline is purged first; then the key is kept, removed
    /// or written as the outcome says. A write that is refused for want
    /// of memory changes nothing more.
    pub open spec fn after(self, key: Seq<u8>, outcome: Outcome) -> EngineView {
        let seen = self.purge(key);
        match outcome.change {
            Change::Keep => seen,
            Change::Delete => seen.drop_key(key),
            Change::Store(entry) => seen.write(key, entry),
        }
    }

    /// The reply of an operation on `key` with this outcome: the
    /// outcome's own, unless it asks for a write that is refused for want
    /// of memory.
    pub open spec fn reply_to(
        self,
        key: Seq<u8>,
        outcome: Outcome,
    ) -> Result<ValueView, ErrorKind> {
        match outcome.change {
            Change::Store(entry) => if self.purge(key).refuses(key, entry) {
                Err(ErrorKind::OutOfMemory)
            } else {
                outcome.reply
            },
            _ => outcome.reply,
        }
    }

    /// The state after a query of `key`: an entry past its deadline is
    /// purged, a live one is noted as read.
    pub open spec fn queried(self, key: Seq<u8>) -> EngineView {
        self.read(key)
    }
}

/// Purging an entry that is past its deadline leaves nothing to purge.
pub proof fn lemma_purge_settles(s: EngineView, key: Seq<u8>)
    requires
        s.wf(),
    ensures
        s.purge(key).wf(),
        s.purge(key).purge(key) == s.purge(key),
        s.purge(key).live(key) == s.live(key),
        s.purge(key).entries.contains_key(key) <==> s.live(key) is Some,
        s.purge(key).now == s.now,
{
    crate::model::lemma_drop_key(s, key);
}

impl StorageEngine {
    /// A copy of the live entry under `key`, without noting a read. An
    /// entry whose deadline has been reached is purged.
    pub fn peek(&mut self, key: &[u8]) -> (found: Option<StoredValue>)
        requires
            old(self).wf(),
        ensures
            final(self).wf(),
            final(self)@ == old(self)@.purge(key@),
            found is Some == old(self)@.live(key@) is Some,
            found is Some ==> found->0@ == old(self)@.live(key@)->0 && found->0@.data.wf(),
    {
        proof {
            lemma_purge_settles(self@, key@);
        }
        self.purge_expired(key);
        let found = self.fetch(key);
        found
    }

    /// Writes `data` under `key` with the deadline `expire_at` and
    /// answers `reply`, or reports that memory ran out.
    pub fn store(
        &mut self,
        key: &[u8],
        data: RedisData,
        expire_at: Option<u64>,
        reply: Value,
    ) -> (given:
        Result<Value, RedisError>)
        requires
            old(self).wf(),
            data@.wf(),
        ensures
            final(self).wf(),
            final(self)@ == old(self)@.write(key@, crate::model::entry_of(data@, expire_at)),
            answers(
                given,
                if old(self)@.refuses(key@, crate::model::entry_of(data@, expire_at)) {
                    Err(ErrorKind::OutOfMemory)
                } else {
                    Ok(reply@)
                },
            ),
    {
        match self.set(key, data, expire_at) {
            Ok(_) => Ok(reply),
            Err(_) => Err(RedisError::OutOfMemory),
        }
    }
}

} // verus!
