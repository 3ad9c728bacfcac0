//! An embedded, in-process key/value store with a Redis-style command
//! surface: typed values, key expiration and a bounded-memory accountant.
//!
//! # Layout
//!
//! - [`types`], [`byte_set`], [`field_map`], [`sorted_set`]: the five kinds
//!   of value and what each is charged for.
//! - [`keyspace`], [`expire`], [`memory`]: the map from keys to entries,
//!   the schedule of deadlines, and the accountant that picks victims.
//! - [`model`]: the store as a state machine over plain mathematical
//!   data; every operation is stated as a step of it.
//! - [`engine`]: the store itself. [`ops`], [`strings`], [`lists`],
//!   [`sets`], [`hashes`], [`zsets`], [`keys`] and [`server`] are the
//!   operations on it, from bytes to replies.
//! - [`value`], [`convert`], [`client`], [`commands`]: replies, the
//!   conversions between callers' types and the store's, and the typed
//!   client.
//! - [`laws`]: what holds of the store whatever is done to it.
//!
//! # Time and chance
//!
//! The store reads no clock and draws no random numbers. Whoever drives
//! it tells it the time and hands it random bits with
//! [`StorageEngine::observe`]; between two observations every operation
//! is a function of the state and its arguments. Deadlines are instants
//! of the monotonic clock, in milliseconds. [`clock::Clock`] reads the
//! machine's clocks, and [`Client::tick`] hands a reading to the store.
//!
//! # Sharing
//!
//! Operations that change the store take it by exclusive reference. To
//! share a store between threads or tasks, put it behind a lock and
//! observe the clocks each time the lock is taken.

pub mod byte_set;
pub mod bytes;
pub mod client;
pub mod clock;
pub mod commands;
pub mod config;
pub mod convert;
pub mod engine;
pub mod error;
pub mod expire;
pub mod field_map;
pub mod glob;
pub mod hashes;
pub mod keys;
pub mod keyspace;
pub mod laws;
pub mod lists;
pub mod memory;
pub mod model;
pub mod numbers;
pub mod ops;
pub mod range;
pub mod seqs;
pub mod server;
pub mod sets;
pub mod sorted_set;
pub mod strings;
pub mod text;
pub mod types;
pub mod value;
pub mod zsets;

pub use crate::client::{Client, ClientBuilder};
pub use crate::commands::Commands;
pub use crate::config::{MaxMemoryPolicy, StorageConfig};
pub use crate::convert::{FromRedisValue, ToRedisArgs};
pub use crate::engine::StorageEngine;
pub use crate::error::{RedisError, RedisResult};
pub use crate::expire::ExpirationManager;
pub use crate::memory::MemoryTracker;
pub use crate::types::{RedisData, StoredValue};
pub use crate::value::Value;
