//! The failures an operation can report.

use vstd::prelude::*;
use vstd::string::StringExecFns;

verus! {

/// Why an operation did not produce a result.
#[derive(Debug, PartialEq, Eq)]
pub enum RedisError {
    /// A reply could not be read as the requested type, or a numeric
    /// operation met content that is not a number.
    ParseError,
    /// A lookup that tells "absent" from "empty" found no such key.
    NoSuchKey(String),
    /// The key holds a value of another kind.
    WrongType,
    /// The operation is deliberately left out.
    NotSupported,
    /// No operation goes by this name.
    CommandNotFound(String),
    /// An argument is malformed or out of range.
    InvalidArgument(String),
    /// Reading or writing outside the store failed.
    IoError(String),
    /// The write does not fit the memory budget and nothing may be evicted
    /// to make room.
    OutOfMemory,
    /// Anything else.
    Unknown(String),
}

impl Clone for RedisError {
    fn clone(&self) -> (copy: RedisError)
        ensures
            copy == *self,
    {
        match self {
            RedisError::ParseError => RedisError::ParseError,
            RedisError::NoSuchKey(key) => RedisError::NoSuchKey(key.clone()),
            RedisError::WrongType => RedisError::WrongType,
            RedisError::NotSupported => RedisError::NotSupported,
            RedisError::CommandNotFound(name) => RedisError::CommandNotFound(name.clone()),
            RedisError::InvalidArgument(what) => RedisError::InvalidArgument(what.clone()),
            RedisError::IoError(what) => RedisError::IoError(what.clone()),
            RedisError::OutOfMemory => RedisError::OutOfMemory,
            RedisError::Unknown(what) => RedisError::Unknown(what.clone()),
        }
    }
}

/// The result of an operation.
pub type RedisResult<T> = Result<T, RedisError>;

impl RedisError {
    /// The text of the report.
    pub open spec fn message_text(self) -> Seq<char> {
        match self {
            RedisError::ParseError => "Cannot parse value"@,
            RedisError::NoSuchKey(key) => "No such key: "@ + key@,
            RedisError::WrongType => "Wrong type operation"@,
            RedisError::NotSupported => "Not supported command"@,
            RedisError::CommandNotFound(name) => "Command not found: "@ + name@,
            RedisError::InvalidArgument(what) => "Invalid argument: "@ + what@,
            RedisError::IoError(what) => "IO error: "@ + what@,
            RedisError::OutOfMemory => "Out of memory"@,
            RedisError::Unknown(what) => "Unknown error: "@ + what@,
        }
    }

    /// A human-readable report of the failure.
    pub fn message(&self) -> (text: String)
        ensures
            text@ == self.message_text(),
    {
        match self {
            RedisError::ParseError => String::from_str("Cannot parse value"),
            RedisError::NoSuchKey(key) => String::from_str("No such key: ").concat(key.as_str()),
            RedisError::WrongType => String::from_str("Wrong type operation"),
            RedisError::NotSupported => String::from_str("Not supported command"),
            RedisError::CommandNotFound(name) => String::from_str("Command not found: ").concat(
                name.as_str(),
            ),
            RedisError::InvalidArgument(what) => String::from_str("Invalid argument: ").concat(
                what.as_str(),
            ),
            RedisError::IoError(what) => String::from_str("IO error: ").concat(what.as_str()),
            RedisError::OutOfMemory => String::from_str("Out of memory"),
            RedisError::Unknown(what) => String::from_str("Unknown error: ").concat(what.as_str()),
        }
    }
}

} // verus!
