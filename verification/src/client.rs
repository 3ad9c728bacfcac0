//! The client: the store behind typed operations. Keys and values are
//! given as anything that can be an argument, and answers are read as
//! whatever type the caller asks for.

use vstd::prelude::*;
use crate::clock::{Clock, seed_of};
use crate::config::{MaxMemoryPolicy, StorageConfig};
use crate::convert::{FromRedisValue, ToRedisArgs, first_bytes, value_to_vec};
use crate::engine::{StorageEngine, DEFAULT_SWEEP_INTERVAL_MS};
use crate::error::RedisError;
use crate::model::EngineView;
use crate::ops::{ErrorKind, answers};

use crate::value::{Value, ValueView};
use crate::{hashes, keys, lists, server, sets, strings};

verus! {

/// The bytes that a key or value given as `x` stands for.
pub open spec fn bytes_of<T: ToRedisArgs>(x: T) -> Seq<u8> {
    first_bytes(x.args_view())
}

/// Whether `read` is what the reply `reply` reads as, as an `RV`: a
/// failure is handed on by its kind; an answer is read, and one that
/// cannot be read as an `RV` is a parse error.
pub open spec fn reads_as<RV: FromRedisValue>(
    read: Result<RV, RedisError>,
    reply: Result<ValueView, ErrorKind>,
) -> bool {
    match reply {
        Err(kind) => read is Err && read->Err_0.kind_view() == kind,
        Ok(v) => match read {
            Ok(x) => RV::decoded(v) == Some(x.deep_view()),
            Err(e) => e is ParseError && RV::decoded(v) is None,
        },
    }
}

/// Reads a reply as an `RV`.
pub fn read_reply<RV: FromRedisValue>(given: Result<Value, RedisError>) -> (read: Result<
    RV,
    RedisError,
>)
    ensures
        forall|reply: Result<ValueView, ErrorKind>|
            answers(given, reply) ==> reads_as::<RV>(read, reply),
{
    match given {
        Ok(v) => RV::from_redis_value(v),
        Err(e) => Err(e),
    }
}

/// A store with typed operations.
pub struct Client {
    storage: StorageEngine,
}

impl View for Client {
    type V = EngineView;

    closed spec fn view(&self) -> EngineView {
        self.storage@
    }
}

impl Client {
    /// The parts of the store agree with each other.
    pub open spec fn wf(&self) -> bool {
        self@.wf()
    }

    /// A client with a fresh store, swept at the default interval.
    pub fn new() -> (made: Client)
        ensures
            made.wf(),
            made@ == EngineView::fresh(DEFAULT_SWEEP_INTERVAL_MS, StorageConfig::default_view()),
    {
        Client { storage: StorageEngine::new(DEFAULT_SWEEP_INTERVAL_MS) }
    }

    /// A client for the store `storage`.
    pub fn from_storage(storage: StorageEngine) -> (made: Client)
        ensures
            made@ == storage@,
    {
        Client { storage }
    }

    /// A client for the store `storage`.
    pub fn with_storage(storage: StorageEngine) -> (made: Client)
        ensures
            made@ == storage@,
    {
        Client { storage }
    }

    /// Settings for a client to be built.
    pub fn builder() -> (b: ClientBuilder)
        ensures
            b.config() == StorageConfig::default_view(),
    {
        ClientBuilder::new()
    }

    /// The store, for operations that this client has no method for.
    pub fn engine_mut(&mut self) -> (storage: &mut StorageEngine)
        ensures
            storage@ == old(self)@,
            final(self)@ == final(storage)@,
    {
        &mut self.storage
    }

    /// Gives up the client for its store.
    pub fn into_storage(self) -> (storage: StorageEngine)
        ensures
            storage@ == self@,
    {
        self.storage
    }

    /// Asks for the background sweeper. Returns true the first time
    /// only: the caller that gets true starts it.
    pub fn start(&mut self) -> (first: bool)
        requires
            old(self).wf(),
        ensures
            final(self).wf(),
            first == !old(self)@.sweeper_started,
            final(self)@ == (EngineView { sweeper_started: true, ..old(self)@ }),
    {
        self.storage.start_expiration_sweeper()
    }

    /// Reads `clock` and hands the reading to the store.
    pub fn tick(&mut self, clock: &Clock)
        requires
            old(self).wf(),
        ensures
            final(self).wf(),
            exists|now_ms: u64, wall_us: u64|
                final(self)@ == old(self)@.observed(now_ms, wall_us, seed_of(now_ms, wall_us)),
    {
        let reading = clock.read();
        self.storage.observe(reading.now_ms, reading.wall_us, reading.entropy);
    }

    /// Hands the clocks and fresh random bits to the store.
    pub fn observe(&mut self, now_ms: u64, wall_us: u64, entropy: u64)
        requires
            old(self).wf(),
        ensures
            final(self).wf(),
            final(self)@ == old(self)@.observed(now_ms, wall_us, entropy),
    {
        self.storage.observe(now_ms, wall_us, entropy);
    }

    /// Milliseconds between two background sweeps.
    pub fn sweep_interval_ms(&self) -> (ms: u64)
        ensures
            ms == self@.sweep_interval_ms,
    {
        self.storage.sweep_interval_ms()
    }

    /// Removes every key whose deadline has been reached. Returns how
    /// many were removed.
    pub fn sweep(&mut self) -> (count: usize)
        requires
            old(self).wf(),
        ensures
            final(self).wf(),
            final(self)@ == old(self)@.swept(),
            count == old(self)@.swept_count(),
    {
        self.storage.sweep()
    }

    /// Sets the memory budget to `maxmemory` bytes.
    pub fn set_maxmemory(&mut self, maxmemory: usize)
        requires
            old(self).wf(),
        ensures
            final(self).wf(),
            final(self)@ == old(self)@.with_config(
                old(self)@.memory.config.with_budget(Some(maxmemory)),
            ),
    {
        self.storage.set_maxmemory(maxmemory);
    }

    /// Sets what to do when a write does not fit the budget.
    pub fn set_maxmemory_policy(&mut self, policy: MaxMemoryPolicy)
        requires
            old(self).wf(),
        ensures
            final(self).wf(),
            final(self)@ == old(self)@.with_config(old(self)@.memory.config.with_policy(policy)),
    {
        self.storage.set_maxmemory_policy(policy);
    }

    /// The memory budget in bytes, if one is set.
    pub fn get_maxmemory(&self) -> (maxmemory: Option<usize>)
        ensures
            maxmemory == self@.memory.config.maxmemory,
    {
        self.storage.get_maxmemory()
    }

    /// What is done when a write does not fit the budget.
    pub fn get_maxmemory_policy(&self) -> (policy: MaxMemoryPolicy)
        ensures
            policy == self@.memory.config.maxmemory_policy,
    {
        self.storage.get_maxmemory_policy()
    }

    /// Bytes accounted for.
    pub fn current_memory_usage(&self) -> (used: usize)
        ensures
            used == self@.used(),
    {
        self.storage.current_memory_usage()
    }

    /// `GET key`, read as an `RV`.
    pub fn get<K: ToRedisArgs, RV: FromRedisValue>(&mut self, key: K) -> (read: Result<
        RV,
        RedisError,
    >)
        requires
            old(self).wf(),
        ensures
            final(self).wf(),
            final(self)@ == old(self)@.queried(bytes_of(key)),
            reads_as::<RV>(read, strings::get_reply(old(self)@.live(bytes_of(key)))),
    {
        let key = value_to_vec(&key);
        read_reply(strings::get(&mut self.storage, key.as_slice()))
    }

    /// `SET key value`.
    pub fn set<K: ToRedisArgs, V: ToRedisArgs>(&mut self, key: K, value: V) -> (done: Result<
        (),
        RedisError,
    >)
        requires
            old(self).wf(),
        ensures
            final(self).wf(),
            final(self)@ == old(self)@.after(
                bytes_of(key),
                strings::set_outcome(bytes_of(value)),
            ),
            reads_as::<()>(
                done,
                old(self)@.reply_to(bytes_of(key), strings::set_outcome(bytes_of(value))),
            ),
    {
        let key = value_to_vec(&key);
        let value = value_to_vec(&value);
        read_reply(strings::set(&mut self.storage, key.as_slice(), value))
    }

    /// `DEL key`: how many keys were removed.
    pub fn del<K: ToRedisArgs>(&mut self, key: K) -> (removed: Result<i64, RedisError>)
        requires
            old(self).wf(),
        ensures
            final(self).wf(),
            final(self)@ == old(self)@.after(
                bytes_of(key),
                keys::del_outcome(old(self)@.live(bytes_of(key))),
            ),
            reads_as::<i64>(
                removed,
                old(self)@.reply_to(
                    bytes_of(key),
                    keys::del_outcome(old(self)@.live(bytes_of(key))),
                ),
            ),
    {
        let key = value_to_vec(&key);
        read_reply(keys::del(&mut self.storage, key.as_slice()))
    }

    /// `EXISTS key`: whether the key holds a live entry.
    pub fn key_exists<K: ToRedisArgs>(&mut self, key: K) -> (found: Result<bool, RedisError>)
        requires
            old(self).wf(),
        ensures
            final(self).wf(),
            final(self)@ == old(self)@.after(
                bytes_of(key),
                keys::exists_outcome(old(self)@.live(bytes_of(key))),
            ),
            reads_as::<bool>(
                found,
                old(self)@.reply_to(
                    bytes_of(key),
                    keys::exists_outcome(old(self)@.live(bytes_of(key))),
                ),
            ),
    {
        let key = value_to_vec(&key);
        read_reply(keys::key_exists(&mut self.storage, key.as_slice()))
    }

    /// `EXPIRE key seconds`: whether the key holds a live entry.
    pub fn expire<K: ToRedisArgs>(&mut self, key: K, seconds: i64) -> (set: Result<
        bool,
        RedisError,
    >)
        requires
            old(self).wf(),
        ensures
            final(self).wf(),
            final(self)@ == keys::expire_state(old(self)@, bytes_of(key), seconds, 1000),
            reads_as::<bool>(set, keys::expire_reply(old(self)@, bytes_of(key), seconds)),
    {
        let key = value_to_vec(&key);
        read_reply(keys::expire(&mut self.storage, key.as_slice(), seconds))
    }

    /// `TTL key`: seconds left, `-1` without a deadline, `-2` without a
    /// live entry.
    pub fn ttl<K: ToRedisArgs>(&mut self, key: K) -> (left: Result<i64, RedisError>)
        requires
            old(self).wf(),
        ensures
            final(self).wf(),
            final(self)@ == old(self)@.purge(bytes_of(key)),
            left == Ok::<i64, RedisError>(old(self)@.ttl_reply(bytes_of(key), 1000)),
    {
        let key = value_to_vec(&key);
        Ok(self.storage.ttl_query(key.as_slice()))
    }

    /// `PERSIST key`: clears the deadline; whether the key holds a live
    /// entry.
    pub fn persist(&mut self, key: &str) -> (cleared: bool)
        requires
            old(self).wf(),
        ensures
            final(self).wf(),
            final(self)@ == old(self)@.with_expiry(vstd::utf8::encode_utf8(key@), None),
            cleared == old(self)@.live(vstd::utf8::encode_utf8(key@)) is Some,
    {
        self.storage.persist(key.as_bytes())
    }

    /// `HSET key field value`: one if the field is new, zero if not.
    pub fn hset<K: ToRedisArgs, F: ToRedisArgs, V: ToRedisArgs>(
        &mut self,
        key: K,
        field: F,
        value: V,
    ) -> (created: Result<i64, RedisError>)
        requires
            old(self).wf(),
        ensures
            final(self).wf(),
            final(self)@ == old(self)@.after(
                bytes_of(key),
                hashes::hset_outcome(
                    old(self)@.live(bytes_of(key)),
                    bytes_of(field),
                    bytes_of(value),
                ),
            ),
            reads_as::<i64>(
                created,
                old(self)@.reply_to(
                    bytes_of(key),
                    hashes::hset_outcome(
                        old(self)@.live(bytes_of(key)),
                        bytes_of(field),
                        bytes_of(value),
                    ),
                ),
            ),
    {
        let key = value_to_vec(&key);
        let field = value_to_vec(&field);
        let value = value_to_vec(&value);
        read_reply(hashes::hset(&mut self.storage, key.as_slice(), field, value))
    }

    /// `HGET key field`, read as an `RV`.
    pub fn hget<K: ToRedisArgs, F: ToRedisArgs, RV: FromRedisValue>(
        &mut self,
        key: K,
        field: F,
    ) -> (read: Result<RV, RedisError>)
        requires
            old(self).wf(),
        ensures
            final(self).wf(),
            final(self)@ == old(self)@.queried(bytes_of(key)),
            reads_as::<RV>(
                read,
                hashes::hget_reply(old(self)@.live(bytes_of(key)), bytes_of(field)),
            ),
    {
        let key = value_to_vec(&key);
        let field = value_to_vec(&field);
        read_reply(hashes::hget(&mut self.storage, key.as_slice(), field.as_slice()))
    }

    /// `HGETALL key`, read as an `RV`.
    pub fn hgetall<K: ToRedisArgs, RV: FromRedisValue>(&mut self, key: K) -> (read: Result<
        RV,
        RedisError,
    >)
        requires
            old(self).wf(),
        ensures
            final(self).wf(),
            final(self)@ == old(self)@.queried(bytes_of(key)),
            reads_as::<RV>(read, hashes::hgetall_reply(old(self)@.live(bytes_of(key)))),
    {
        let key = value_to_vec(&key);
        read_reply(hashes::hgetall(&mut self.storage, key.as_slice()))
    }

    /// `HDEL key field`: how many fields were removed.
    pub fn hdel<K: ToRedisArgs, F: ToRedisArgs>(&mut self, key: K, field: F) -> (removed: Result<
        i64,
        RedisError,
    >)
        requires
            old(self).wf(),
        ensures
            final(self).wf(),
            final(self)@ == old(self)@.after(
                bytes_of(key),
                hashes::hdel_outcome(old(self)@.live(bytes_of(key)), bytes_of(field)),
            ),
            reads_as::<i64>(
                removed,
                old(self)@.reply_to(
                    bytes_of(key),
                    hashes::hdel_outcome(old(self)@.live(bytes_of(key)), bytes_of(field)),
                ),
            ),
    {
        let key = value_to_vec(&key);
        let field = value_to_vec(&field);
        read_reply(hashes::hdel(&mut self.storage, key.as_slice(), field.as_slice()))
    }

    /// `LPUSH key value`: the new length.
    pub fn lpush<K: ToRedisArgs, V: ToRedisArgs>(&mut self, key: K, value: V) -> (len: Result<
        i64,
        RedisError,
    >)
        requires
            old(self).wf(),
        ensures
            final(self).wf(),
            final(self)@ == old(self)@.after(
                bytes_of(key),
                lists::lpush_outcome(old(self)@.live(bytes_of(key)), bytes_of(value)),
            ),
            reads_as::<i64>(
                len,
                old(self)@.reply_to(
                    bytes_of(key),
                    lists::lpush_outcome(old(self)@.live(bytes_of(key)), bytes_of(value)),
                ),
            ),
    {
        let key = value_to_vec(&key);
        let value = value_to_vec(&value);
        read_reply(lists::lpush(&mut self.storage, key.as_slice(), value))
    }

    /// `RPUSH key value`: the new length.
    pub fn rpush<K: ToRedisArgs, V: ToRedisArgs>(&mut self, key: K, value: V) -> (len: Result<
        i64,
        RedisError,
    >)
        requires
            old(self).wf(),
        ensures
            final(self).wf(),
            final(self)@ == old(self)@.after(
                bytes_of(key),
                lists::rpush_outcome(old(self)@.live(bytes_of(key)), bytes_of(value)),
            ),
            reads_as::<i64>(
                len,
                old(self)@.reply_to(
                    bytes_of(key),
                    lists::rpush_outcome(old(self)@.live(bytes_of(key)), bytes_of(value)),
                ),
            ),
    {
        let key = value_to_vec(&key);
        let value = value_to_vec(&value);
        read_reply(lists::rpush(&mut self.storage, key.as_slice(), value))
    }

    /// `LLEN key`.
    pub fn llen<K: ToRedisArgs>(&mut self, key: K) -> (len: Result<i64, RedisError>)
        requires
            old(self).wf(),
        ensures
            final(self).wf(),
            final(self)@ == old(self)@.queried(bytes_of(key)),
            reads_as::<i64>(len, lists::llen_reply(old(self)@.live(bytes_of(key)))),
    {
        let key = value_to_vec(&key);
        read_reply(lists::llen(&mut self.storage, key.as_slice()))
    }

    /// `SADD key member`: one if the member joined, zero if it was there.
    pub fn sadd<K: ToRedisArgs, V: ToRedisArgs>(&mut self, key: K, member: V) -> (added: Result<
        i64,
        RedisError,
    >)
        requires
            old(self).wf(),
        ensures
            final(self).wf(),
            final(self)@ == old(self)@.after(
                bytes_of(key),
                sets::sadd_outcome(old(self)@.live(bytes_of(key)), bytes_of(member)),
            ),
            reads_as::<i64>(
                added,
                old(self)@.reply_to(
                    bytes_of(key),
                    sets::sadd_outcome(old(self)@.live(bytes_of(key)), bytes_of(member)),
                ),
            ),
    {
        let key = value_to_vec(&key);
        let member = value_to_vec(&member);
        read_reply(sets::sadd(&mut self.storage, key.as_slice(), member))
    }

    /// `SMEMBERS key`, read as an `RV`.
    pub fn smembers<K: ToRedisArgs, RV: FromRedisValue>(&mut self, key: K) -> (read: Result<
        RV,
        RedisError,
    >)
        requires
            old(self).wf(),
        ensures
            final(self).wf(),
            final(self)@ == old(self)@.queried(bytes_of(key)),
            reads_as::<RV>(read, sets::smembers_reply(old(self)@.live(bytes_of(key)))),
    {
        let key = value_to_vec(&key);
        read_reply(sets::smembers(&mut self.storage, key.as_slice()))
    }

    /// `PING`: answers `PONG`.
    pub fn ping(&mut self) -> (pong: Result<String, RedisError>)
        ensures
            *final(self) == *old(self),
            pong is Ok,
            pong->Ok_0@ == "PONG"@,
    {
        proof {
            vstd::utf8::encode_utf8_valid_utf8("PONG"@);
            vstd::utf8::encode_utf8_decode_utf8("PONG"@);
        }
        read_reply(server::ping(&self.storage))
    }

    /// `ECHO message`: the message as text.
    pub fn echo<K: ToRedisArgs>(&mut self, msg: K) -> (said: Result<String, RedisError>)
        ensures
            *final(self) == *old(self),
            reads_as::<String>(said, Ok(ValueView::String(bytes_of(msg)))),
    {
        let message = value_to_vec(&msg);
        read_reply(server::echo(&self.storage, message.as_slice()))
    }

    /// `DBSIZE`: the number of live keys.
    pub fn dbsize(&mut self) -> (count: Result<i64, RedisError>)
        requires
            old(self).wf(),
        ensures
            final(self).wf(),
            final(self)@ == old(self)@.swept(),
            count == Ok::<i64, RedisError>(old(self)@.swept().entries.dom().len() as i64),
    {
        read_reply(server::dbsize(&mut self.storage))
    }

    /// `FLUSHDB`: drops every key; answers `OK`.
    pub fn flushdb(&mut self) -> (done: Result<String, RedisError>)
        ensures
            final(self).wf(),
            final(self)@ == old(self)@.flushed(),
            done is Ok,
            done->Ok_0@ == "OK"@,
    {
        read_reply(server::flushdb(&mut self.storage))
    }
}

impl Default for Client {
    fn default() -> (made: Client)
        ensures
            made.wf(),
            made@ == EngineView::fresh(DEFAULT_SWEEP_INTERVAL_MS, StorageConfig::default_view()),
    {
        Client::new()
    }
}

/// Settings for a client to be built.
pub struct ClientBuilder {
    config: StorageConfig,
}

impl ClientBuilder {
    /// The settings gathered so far.
    pub closed spec fn config(&self) -> StorageConfig {
        self.config
    }

    /// No budget, no eviction.
    pub fn new() -> (b: ClientBuilder)
        ensures
            b.config() == StorageConfig::default_view(),
    {
        ClientBuilder { config: StorageConfig::new() }
    }

    /// The same settings with the budget set to `maxmemory` bytes.
    pub fn maxmemory(self, maxmemory: usize) -> (b: ClientBuilder)
        ensures
            b.config() == self.config().with_budget(Some(maxmemory)),
    {
        ClientBuilder { config: self.config.with_maxmemory(maxmemory) }
    }

    /// The same settings with the policy set to `policy`.
    pub fn maxmemory_policy(self, policy: MaxMemoryPolicy) -> (b: ClientBuilder)
        ensures
            b.config() == self.config().with_policy(policy),
    {
        ClientBuilder { config: self.config.with_maxmemory_policy(policy) }
    }

    /// A client with a fresh store under these settings.
    pub fn build(self) -> (made: Client)
        ensures
            made.wf(),
            made@ == EngineView::fresh(DEFAULT_SWEEP_INTERVAL_MS, self.config()),
    {
        Client { storage: StorageEngine::with_config(self.config) }
    }
}

impl Default for ClientBuilder {
    fn default() -> (b: ClientBuilder)
        ensures
            b.config() == StorageConfig::default_view(),
    {
        ClientBuilder::new()
    }
}

} // verus!
