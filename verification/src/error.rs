//! The failures that the storage core reports.
use std::collections::TryReserveError;
use vstd::prelude::*;

verus! {

/// The allocator could not satisfy a request for storage.
#[derive(Clone, Copy, Debug, PartialEq, Eq, Structural)]
pub struct OutOfMemory;

/// Every failure a handle operation can report.
#[derive(Clone, Copy, Debug, PartialEq, Eq, Structural)]
pub enum Error {
    /// Storage could not be allocated.
    OutOfMemory,
    /// An index or a range lies outside the container.
    InvalidValue,
    /// The codec is already part of the registry.
    AlreadyExists,
    /// The codec is not part of the registry.
    NoEntry,
    /// Every frame of the stream has been consumed.
    NoMoreData,
    /// The data is malformed.
    InvalidData,
    /// The data ends before the format says it should.
    DataTruncated,
    /// A failure that a codec reports in its own terms, with its code.
    Format(u32),
}

impl OutOfMemory {
    /// Maps the answer of the allocator to the library's own failure: a
    /// granted reservation is success, a refused one is `OutOfMemory`.
    pub fn from_reservation(outcome: Result<(), TryReserveError>) -> (r: Result<
        (),
        OutOfMemory,
    >)
        ensures
            r.is_ok() == outcome.is_ok(),
    {
        match outcome {
            Ok(()) => Ok(()),
            Err(_) => Err(OutOfMemory),
        }
    }
}

impl Error {
    /// True for the one failure that growing storage can cause.
    pub fn is_out_of_memory(&self) -> (r: bool)
        ensures
            r == (*self == Error::OutOfMemory),
    {
        match self {
            Error::OutOfMemory => true,
            _ => false,
        }
    }

    /// A short description of the failure.
    pub fn message(&self) -> (text: &'static str)
        ensures
            text@ == Self::spec_message(*self)@,
    {
        match self {
            Error::OutOfMemory => "out of memory",
            Error::InvalidValue => "invalid value",
            Error::AlreadyExists => "already exists",
            Error::NoEntry => "no entry",
            Error::NoMoreData => "no more data",
            Error::InvalidData => "invalid data",
            Error::DataTruncated => "data truncated",
            Error::Format(_) => "format error",
        }
    }

    /// The description that [`Error::message`] returns.
    pub open spec fn spec_message(e: Error) -> &'static str {
        match e {
            Error::OutOfMemory => "out of memory",
            Error::InvalidValue => "invalid value",
            Error::AlreadyExists => "already exists",
            Error::NoEntry => "no entry",
            Error::NoMoreData => "no more data",
            Error::InvalidData => "invalid data",
            Error::DataTruncated => "data truncated",
            Error::Format(_) => "format error",
        }
    }
}

impl From<OutOfMemory> for Error {
    fn from(e: OutOfMemory) -> (r: Error) {
        Error::OutOfMemory
    }
}

impl vstd::std_specs::convert::FromSpecImpl<OutOfMemory> for Error {
    open spec fn obeys_from_spec() -> bool {
        true
    }

    open spec fn from_spec(e: OutOfMemory) -> Error {
        Error::OutOfMemory
    }
}

} // verus!
