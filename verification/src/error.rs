//! The two ways in which a versioned decode fails.

use crate::text::{decimal, to_decimal};
use vstd::prelude::*;

verus! {

/// The version map names a version that the type does not declare.
#[derive(Debug, Clone, PartialEq, Eq)]
pub struct InvalidVersionError {
    /// The version number that the map holds.
    pub version: usize,
    /// The identifier of the type that was being decoded.
    pub type_id: String,
}

/// The failure of a versioned decode.
#[derive(Debug, Clone, PartialEq, Eq)]
pub enum Error<E> {
    /// The format decoder failed; its own error is kept as it was.
    DeserializeError(E),
    /// The version map and the declared versions do not agree.
    InvalidVersionError(InvalidVersionError),
}

pub const MESSAGE_OPEN: &'static str = "Invalid version ";

pub const MESSAGE_FOR: &'static str = " for ";

/// The sentence that reports an undeclared version.
pub open spec fn message_text(version: usize, type_id: Seq<char>) -> Seq<char> {
    MESSAGE_OPEN@ + decimal(version as nat) + MESSAGE_FOR@ + type_id
}

impl InvalidVersionError {
    /// The error as a sentence: the version number, then the type.
    pub fn message(&self) -> (text: String)
        ensures
            text@ == message_text(self.version, self.type_id@),
    {
        let mut text = String::from_str(MESSAGE_OPEN);
        text.append(to_decimal(self.version).as_str());
        text.append(MESSAGE_FOR);
        text.append(self.type_id.as_str());
        text
    }
}

/// What a failed ordinary decode becomes: the format decoder's error, kept.
pub open spec fn decode_failed<R, E>(outcome: Result<R, E>) -> Result<R, Error<E>> {
    match outcome {
        Ok(value) => Ok(value),
        Err(error) => Err(Error::DeserializeError(error)),
    }
}

/// Marks the failure of an ordinary decode as a failure of the format decoder.
pub fn wrap_decode<R, E>(outcome: Result<R, E>) -> (result: Result<R, Error<E>>)
    ensures
        result == decode_failed(outcome),
{
    match outcome {
        Ok(value) => Ok(value),
        Err(error) => Err(Error::DeserializeError(error)),
    }
}

} // verus!
