//! Memory limits and the eviction policies that enforce them.

use vstd::prelude::*;
use crate::text::{lowercase_of, str_eq, to_lowercase};

verus! {

/// How the store makes room once the configured memory budget is reached.
#[derive(Debug, Clone, Copy, PartialEq, Eq, Structural)]
pub enum MaxMemoryPolicy {
    /// Never evict: writes that do not fit are refused.
    NoEviction,
    /// Evict the least recently accessed key.
    AllKeysLru,
    /// Evict a key picked at random.
    AllKeysRandom,
    /// Evict the key with the lowest access counter.
    AllKeysLfu,
    /// Among keys with a deadline, evict the least recently accessed.
    VolatileLru,
    /// Among keys with a deadline, evict one picked at random.
    VolatileRandom,
    /// Among keys with a deadline, evict the one that expires first.
    VolatileTtl,
    /// Among keys with a deadline, evict the one with the lowest counter.
    VolatileLfu,
}

impl MaxMemoryPolicy {
    /// The policy's configuration name.
    pub open spec fn name(self) -> Seq<char> {
        match self {
            MaxMemoryPolicy::NoEviction => "noeviction"@,
            MaxMemoryPolicy::AllKeysLru => "allkeys-lru"@,
            MaxMemoryPolicy::AllKeysRandom => "allkeys-random"@,
            MaxMemoryPolicy::AllKeysLfu => "allkeys-lfu"@,
            MaxMemoryPolicy::VolatileLru => "volatile-lru"@,
            MaxMemoryPolicy::VolatileRandom => "volatile-random"@,
            MaxMemoryPolicy::VolatileTtl => "volatile-ttl"@,
            MaxMemoryPolicy::VolatileLfu => "volatile-lfu"@,
        }
    }

    /// The policy that goes by exactly this name, if any. Where two
    /// names coincide the policy listed first wins.
    pub open spec fn named(name: Seq<char>) -> Option<MaxMemoryPolicy> {
        if name == "noeviction"@ {
            Some(MaxMemoryPolicy::NoEviction)
        } else if name == "allkeys-lru"@ {
            Some(MaxMemoryPolicy::AllKeysLru)
        } else if name == "allkeys-random"@ {
            Some(MaxMemoryPolicy::AllKeysRandom)
        } else if name == "allkeys-lfu"@ {
            Some(MaxMemoryPolicy::AllKeysLfu)
        } else if name == "volatile-lru"@ {
            Some(MaxMemoryPolicy::VolatileLru)
        } else if name == "volatile-random"@ {
            Some(MaxMemoryPolicy::VolatileRandom)
        } else if name == "volatile-ttl"@ {
            Some(MaxMemoryPolicy::VolatileTtl)
        } else if name == "volatile-lfu"@ {
            Some(MaxMemoryPolicy::VolatileLfu)
        } else {
            None
        }
    }

    /// True for the policies that only ever evict keys carrying a deadline.
    pub open spec fn spec_is_volatile(&self) -> bool {
        *self is VolatileLru || *self is VolatileRandom || *self is VolatileTtl
            || *self is VolatileLfu
    }

    /// True for the policies that pick the least recently accessed key.
    pub open spec fn spec_is_lru(&self) -> bool {
        *self is AllKeysLru || *self is VolatileLru
    }

    /// True for the policies that pick the key with the lowest counter.
    pub open spec fn spec_is_lfu(&self) -> bool {
        *self is AllKeysLfu || *self is VolatileLfu
    }

    /// True for the policies that pick a key at random.
    pub open spec fn spec_is_random(&self) -> bool {
        *self is AllKeysRandom || *self is VolatileRandom
    }

    /// The policy's configuration name.
    pub fn as_str(&self) -> (name: &'static str)
        ensures
            name@ == self.name(),
    {
        match self {
            MaxMemoryPolicy::NoEviction => "noeviction",
            MaxMemoryPolicy::AllKeysLru => "allkeys-lru",
            MaxMemoryPolicy::AllKeysRandom => "allkeys-random",
            MaxMemoryPolicy::AllKeysLfu => "allkeys-lfu",
            MaxMemoryPolicy::VolatileLru => "volatile-lru",
            MaxMemoryPolicy::VolatileRandom => "volatile-random",
            MaxMemoryPolicy::VolatileTtl => "volatile-ttl",
            MaxMemoryPolicy::VolatileLfu => "volatile-lfu",
        }
    }

    /// The policy whose name is `name`, letter for letter.
    pub fn from_name(name: &str) -> (policy: Option<MaxMemoryPolicy>)
        ensures
            policy == MaxMemoryPolicy::named(name@),
    {
        if str_eq(name, "noeviction") {
            Some(MaxMemoryPolicy::NoEviction)
        } else if str_eq(name, "allkeys-lru") {
            Some(MaxMemoryPolicy::AllKeysLru)
        } else if str_eq(name, "allkeys-random") {
            Some(MaxMemoryPolicy::AllKeysRandom)
        } else if str_eq(name, "allkeys-lfu") {
            Some(MaxMemoryPolicy::AllKeysLfu)
        } else if str_eq(name, "volatile-lru") {
            Some(MaxMemoryPolicy::VolatileLru)
        } else if str_eq(name, "volatile-random") {
            Some(MaxMemoryPolicy::VolatileRandom)
        } else if str_eq(name, "volatile-ttl") {
            Some(MaxMemoryPolicy::VolatileTtl)
        } else if str_eq(name, "volatile-lfu") {
            Some(MaxMemoryPolicy::VolatileLfu)
        } else {
            None
        }
    }

    /// The policy whose name is the lower-case form of `s`.
    pub fn from_str(s: &str) -> (policy: Option<MaxMemoryPolicy>)
        ensures
            policy == MaxMemoryPolicy::named(lowercase_of(s@)),
    {
        let lower = to_lowercase(s);
        MaxMemoryPolicy::from_name(lower.as_str())
    }

    /// Whether the policy only ever evicts keys that have a deadline.
    #[verifier::when_used_as_spec(spec_is_volatile)]
    pub fn is_volatile(&self) -> (r: bool)
        ensures
            r == self.spec_is_volatile(),
    {
        match self {
            MaxMemoryPolicy::VolatileLru
            | MaxMemoryPolicy::VolatileRandom
            | MaxMemoryPolicy::VolatileTtl
            | MaxMemoryPolicy::VolatileLfu => true,
            _ => false,
        }
    }

    /// Whether the policy evicts the least recently accessed key.
    #[verifier::when_used_as_spec(spec_is_lru)]
    pub fn is_lru(&self) -> (r: bool)
        ensures
            r == self.spec_is_lru(),
    {
        match self {
            MaxMemoryPolicy::AllKeysLru | MaxMemoryPolicy::VolatileLru => true,
            _ => false,
        }
    }

    /// Whether the policy evicts the key with the lowest counter.
    #[verifier::when_used_as_spec(spec_is_lfu)]
    pub fn is_lfu(&self) -> (r: bool)
        ensures
            r == self.spec_is_lfu(),
    {
        match self {
            MaxMemoryPolicy::AllKeysLfu | MaxMemoryPolicy::VolatileLfu => true,
            _ => false,
        }
    }

    /// Whether the policy evicts a key picked at random.
    #[verifier::when_used_as_spec(spec_is_random)]
    pub fn is_random(&self) -> (r: bool)
        ensures
            r == self.spec_is_random(),
    {
        match self {
            MaxMemoryPolicy::AllKeysRandom | MaxMemoryPolicy::VolatileRandom => true,
            _ => false,
        }
    }
}

impl Default for MaxMemoryPolicy {
    fn default() -> (policy: MaxMemoryPolicy)
        ensures
            policy == MaxMemoryPolicy::NoEviction,
    {
        MaxMemoryPolicy::NoEviction
    }
}

/// The memory settings of a store.
#[derive(Debug, Clone, Copy, PartialEq, Eq, Structural)]
pub struct StorageConfig {
    /// Bound on the accounted size in bytes; `None` leaves it unbounded.
    pub maxmemory: Option<usize>,
    /// What to do when a write does not fit the bound.
    pub maxmemory_policy: MaxMemoryPolicy,
}

impl Default for StorageConfig {
    fn default() -> (config: StorageConfig)
        ensures
            config == StorageConfig::default_view(),
    {
        StorageConfig { maxmemory: None, maxmemory_policy: MaxMemoryPolicy::NoEviction }
    }
}

impl StorageConfig {
    /// The settings of a store that has been given none: no bound, no
    /// eviction.
    pub open spec fn default_view() -> StorageConfig {
        StorageConfig { maxmemory: None, maxmemory_policy: MaxMemoryPolicy::NoEviction }
    }

    /// These settings with the bound replaced by `maxmemory`.
    pub open spec fn with_budget(self, maxmemory: Option<usize>) -> StorageConfig {
        StorageConfig { maxmemory, ..self }
    }

    /// These settings with the policy replaced by `policy`.
    pub open spec fn with_policy(self, policy: MaxMemoryPolicy) -> StorageConfig {
        StorageConfig { maxmemory_policy: policy, ..self }
    }

    /// Unbounded memory, no eviction.
    pub fn new() -> (config: StorageConfig)
        ensures
            config == StorageConfig::default_view(),
    {
        StorageConfig { maxmemory: None, maxmemory_policy: MaxMemoryPolicy::NoEviction }
    }

    /// The same settings with the bound set to `maxmemory` bytes.
    pub fn with_maxmemory(self, maxmemory: usize) -> (config: StorageConfig)
        ensures
            config == self.with_budget(Some(maxmemory)),
    {
        StorageConfig { maxmemory: Some(maxmemory), maxmemory_policy: self.maxmemory_policy }
    }

    /// The same settings with the policy set to `policy`.
    pub fn with_maxmemory_policy(self, policy: MaxMemoryPolicy) -> (config: StorageConfig)
        ensures
            config == self.with_policy(policy),
    {
        StorageConfig { maxmemory: self.maxmemory, maxmemory_policy: policy }
    }
}

} // verus!
