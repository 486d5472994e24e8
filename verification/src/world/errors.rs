//! Errors of the game world.

use vstd::prelude::*;
use vstd::std_specs::cmp::PartialEqSpecImpl;

verus! {

/// What can go wrong inside the game world.
#[derive(Debug, Clone, Copy)]
pub enum Error {
    /// Command is not valid.
    InvalidCommand,
    /// Data message is not valid.
    InvalidDataMessage,
    /// Player does not exist.
    PlayerDoesNotExist,
    /// No valid spawn point found.
    NoSpawnpointFound,
    /// The input does not start with a known verb.
    VerbUnknownError,
    /// The input is not valid text, or a `look` sentence is malformed.
    VerbEncodingError,
    /// A word names no property of a closed vocabulary.
    PropertyConversionFailed,
    /// Anything else. Two unknown errors are never taken to be the same error.
    UnknownError,
}

/// A result whose error is a world [`Error`].
pub type GameWorldResult<T> = Result<T, Error>;

impl Error {
    /// The message for this error.
    pub open spec fn message(&self) -> Seq<char> {
        match self {
            Error::InvalidCommand => "invalid command"@,
            Error::InvalidDataMessage => "invalid data message"@,
            Error::PlayerDoesNotExist => "player does not exist"@,
            Error::NoSpawnpointFound => "no valid spawnpoint found"@,
            Error::VerbUnknownError => "unknown verb"@,
            Error::VerbEncodingError => "unknown verb encoding"@,
            Error::PropertyConversionFailed => "property conversion failed"@,
            Error::UnknownError => "unknown error"@,
        }
    }

    /// Renders the error as its message.
    pub fn to_string(&self) -> (text: String)
        ensures
            text@ == self.message(),
    {
        match self {
            Error::InvalidCommand => "invalid command".to_owned(),
            Error::InvalidDataMessage => "invalid data message".to_owned(),
            Error::PlayerDoesNotExist => "player does not exist".to_owned(),
            Error::NoSpawnpointFound => "no valid spawnpoint found".to_owned(),
            Error::VerbUnknownError => "unknown verb".to_owned(),
            Error::VerbEncodingError => "unknown verb encoding".to_owned(),
            Error::PropertyConversionFailed => "property conversion failed".to_owned(),
            Error::UnknownError => "unknown error".to_owned(),
        }
    }
}

/// Errors compare equal when they are the same known error. `UnknownError`
/// equals nothing, not even itself: what went wrong is not known, so two of
/// them need not be the same failure.
impl PartialEq for Error {
    fn eq(&self, other: &Error) -> (r: bool) {
        match (self, other) {
            (Error::InvalidCommand, Error::InvalidCommand) => true,
            (Error::InvalidDataMessage, Error::InvalidDataMessage) => true,
            (Error::PlayerDoesNotExist, Error::PlayerDoesNotExist) => true,
            (Error::NoSpawnpointFound, Error::NoSpawnpointFound) => true,
            (Error::VerbUnknownError, Error::VerbUnknownError) => true,
            (Error::VerbEncodingError, Error::VerbEncodingError) => true,
            (Error::PropertyConversionFailed, Error::PropertyConversionFailed) => true,
            _ => false,
        }
    }
}

impl PartialEqSpecImpl for Error {
    open spec fn obeys_eq_spec() -> bool {
        true
    }

    open spec fn eq_spec(&self, other: &Error) -> bool {
        *self == *other && !(*self is UnknownError)
    }
}

} // verus!
