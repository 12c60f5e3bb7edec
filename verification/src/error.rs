//! The closed set of failures that the runtime reports.

use vstd::prelude::*;
use crate::text::{decimal, push_decimal};

pub mod ffi;

verus! {

/// Everything that an operation of the runtime can fail with.
#[derive(Debug, Clone, PartialEq)]
pub enum Error {
    /// A weight buffer is malformed, too short, or of the wrong shape.
    InvalidWeights(String),
    /// An observation does not have the expected number of elements.
    InvalidObsSize { expected: usize, actual: usize },
    /// An action does not have the expected number of elements.
    InvalidActionSize { expected: usize, actual: usize },
    /// An observation/action pair breaks the safety invariant.
    InvariantViolation(String),
    /// Storage for parameters could not be obtained.
    OutOfMemory(String),
    /// Parameters could not be written in the wire format.
    Serialization(String),
    /// The algorithm tag of a weight buffer is not known.
    UnsupportedAlgorithm(String),
    /// An accelerated vector backend was asked for but is not present.
    SimdNotAvailable(String),
    /// Anything unexpected.
    Internal(String),
}

/// Result of an operation of the runtime.
pub type Result<T> = core::result::Result<T, Error>;

/// An error with its detail as plain text.
pub enum ErrorModel {
    InvalidWeights(Seq<char>),
    InvalidObsSize { expected: usize, actual: usize },
    InvalidActionSize { expected: usize, actual: usize },
    InvariantViolation(Seq<char>),
    OutOfMemory(Seq<char>),
    Serialization(Seq<char>),
    UnsupportedAlgorithm(Seq<char>),
    SimdNotAvailable(Seq<char>),
    Internal(Seq<char>),
}

impl View for Error {
    type V = ErrorModel;

    open spec fn view(&self) -> ErrorModel {
        match *self {
            Error::InvalidWeights(d) => ErrorModel::InvalidWeights(d@),
            Error::InvalidObsSize { expected, actual } => ErrorModel::InvalidObsSize {
                expected,
                actual,
            },
            Error::InvalidActionSize { expected, actual } => ErrorModel::InvalidActionSize {
                expected,
                actual,
            },
            Error::InvariantViolation(d) => ErrorModel::InvariantViolation(d@),
            Error::OutOfMemory(d) => ErrorModel::OutOfMemory(d@),
            Error::Serialization(d) => ErrorModel::Serialization(d@),
            Error::UnsupportedAlgorithm(d) => ErrorModel::UnsupportedAlgorithm(d@),
            Error::SimdNotAvailable(d) => ErrorModel::SimdNotAvailable(d@),
            Error::Internal(d) => ErrorModel::Internal(d@),
        }
    }
}

impl ErrorModel {
    /// The human-readable text of the error.
    pub open spec fn message(self) -> Seq<char> {
        match self {
            ErrorModel::InvalidWeights(d) => "Invalid weights data: "@ + d,
            ErrorModel::InvalidObsSize { expected, actual } => "Invalid observation size: expected "@
                + decimal(expected as nat) + ", got "@ + decimal(actual as nat),
            ErrorModel::InvalidActionSize { expected, actual } => "Invalid action size: expected "@
                + decimal(expected as nat) + ", got "@ + decimal(actual as nat),
            ErrorModel::InvariantViolation(d) => "Safety invariant violation: "@ + d,
            ErrorModel::OutOfMemory(d) => "Out of memory: "@ + d,
            ErrorModel::Serialization(d) => "Serialization error: "@ + d,
            ErrorModel::UnsupportedAlgorithm(d) => "Algorithm not supported: "@ + d,
            ErrorModel::SimdNotAvailable(d) => "SIMD feature not available: "@ + d,
            ErrorModel::Internal(d) => "Internal error: "@ + d,
        }
    }
}

impl Error {
    /// Renders the error as text.
    pub fn message(&self) -> (r: String)
        ensures
            r@ == self@.message(),
    {
        match self {
            Error::InvalidWeights(d) => String::from_str("Invalid weights data: ").concat(
                d.as_str(),
            ),
            Error::InvalidObsSize { expected, actual } => {
                let mut out = String::from_str("Invalid observation size: expected ");
                push_decimal(&mut out, *expected as u64);
                out.append(", got ");
                push_decimal(&mut out, *actual as u64);
                out
            },
            Error::InvalidActionSize { expected, actual } => {
                let mut out = String::from_str("Invalid action size: expected ");
                push_decimal(&mut out, *expected as u64);
                out.append(", got ");
                push_decimal(&mut out, *actual as u64);
                out
            },
            Error::InvariantViolation(d) => String::from_str(
                "Safety invariant violation: ",
            ).concat(d.as_str()),
            Error::OutOfMemory(d) => String::from_str("Out of memory: ").concat(d.as_str()),
            Error::Serialization(d) => String::from_str("Serialization error: ").concat(
                d.as_str(),
            ),
            Error::UnsupportedAlgorithm(d) => String::from_str("Algorithm not supported: ").concat(
                d.as_str(),
            ),
            Error::SimdNotAvailable(d) => String::from_str(
                "SIMD feature not available: ",
            ).concat(d.as_str()),
            Error::Internal(d) => String::from_str("Internal error: ").concat(d.as_str()),
        }
    }
}

/// An `InvalidWeights` error with the given detail.
pub fn invalid_weights(detail: &str) -> (e: Error)
    ensures
        e@ == ErrorModel::InvalidWeights(detail@),
{
    Error::InvalidWeights(String::from_str(detail))
}

} // verus!
