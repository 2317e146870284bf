//! The ways in which a request for records can fail.

use vstd::prelude::*;

verus! {

/// Why a JSON value could not be decoded into a record.
#[derive(Debug, Clone, Copy, PartialEq, Eq, Structural)]
pub enum ParseError {
    /// A value that has to be an object is of another kind.
    NotAnObject,
    /// An object lacks a member that the record needs.
    MissingField,
    /// An object names a member of the record more than once.
    DuplicateField,
    /// A member is of another kind than the record's field.
    WrongType,
    /// A string that has to hold a date and time does not.
    InvalidTimestamp,
}

/// The outcome of a decoder is the one that `expected` describes: the same
/// error, or a record with the expected view.
pub open spec fn stands_for<T: View>(
    outcome: Result<T, ParseError>,
    expected: Result<T::V, ParseError>,
) -> bool {
    match outcome {
        Ok(record) => expected == Ok::<T::V, ParseError>(record@),
        Err(e) => expected == Err::<T::V, ParseError>(e),
    }
}

/// As `stands_for`, for a decoder that may find that there is no record.
pub open spec fn stands_for_optional<T: View>(
    outcome: Result<Option<T>, ParseError>,
    expected: Result<Option<T::V>, ParseError>,
) -> bool {
    match outcome {
        Ok(Some(record)) => expected == Ok::<Option<T::V>, ParseError>(Some(record@)),
        Ok(None) => expected == Ok::<Option<T::V>, ParseError>(None),
        Err(e) => expected == Err::<Option<T::V>, ParseError>(e),
    }
}

/// Why no JSON body came back for a request.
#[derive(Debug, Clone, PartialEq, Eq)]
pub enum TransportError {
    /// The request could not be sent, or no response arrived.
    Network(String),
    /// The server answered with this status, which is not a success.
    Status(u16),
    /// The body of the response is not JSON.
    Body(String),
}

/// Why an operation of the client failed.
#[derive(Debug, Clone, PartialEq, Eq)]
pub enum Error {
    Parse(ParseError),
    Transport(TransportError),
}

} // verus!
