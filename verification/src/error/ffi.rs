//! Integer status codes for callers across a C boundary.

use vstd::prelude::*;
use crate::error::{Error, ErrorModel};
use crate::text::{signed_decimal, push_signed_decimal};

verus! {

/// Success.
pub const LR_OK: i32 = 0;

/// The weight buffer was rejected.
pub const LR_EBADWEIGHTS: i32 = -1;

/// A vector had the wrong number of elements.
pub const LR_EINVSIZE: i32 = -2;

/// The safety invariant does not hold.
pub const LR_EINVARIANT: i32 = -3;

/// Storage could not be obtained.
pub const LR_EOUTOFMEM: i32 = -4;

/// Any other failure.
pub const LR_EINTERNAL: i32 = -5;

/// The status code that stands for an error.
pub open spec fn code_of(err: Error) -> i32 {
    match err {
        Error::InvalidWeights(_) => LR_EBADWEIGHTS,
        Error::InvalidObsSize { .. } => LR_EINVSIZE,
        Error::InvalidActionSize { .. } => LR_EINVSIZE,
        Error::InvariantViolation(_) => LR_EINVARIANT,
        Error::OutOfMemory(_) => LR_EOUTOFMEM,
        _ => LR_EINTERNAL,
    }
}

/// Maps an error to its status code. Bad-input kinds keep codes of their own;
/// every other kind becomes `LR_EINTERNAL`.
pub fn error_to_code(err: &Error) -> (code: i32)
    ensures
        code == code_of(*err),
        code != LR_OK,
{
    match err {
        Error::InvalidWeights(_) => LR_EBADWEIGHTS,
        Error::InvalidObsSize { .. } => LR_EINVSIZE,
        Error::InvalidActionSize { .. } => LR_EINVSIZE,
        Error::InvariantViolation(_) => LR_EINVARIANT,
        Error::OutOfMemory(_) => LR_EOUTOFMEM,
        _ => LR_EINTERNAL,
    }
}

/// Whether `err` is the error that stands for `code`: the kind that owns the
/// code, with its fixed detail, or an `Internal` error that names the code.
pub open spec fn stands_for(err: Error, code: i32) -> bool {
    if code == LR_EBADWEIGHTS {
        err@ == ErrorModel::InvalidWeights("FFI: Bad weights"@)
    } else if code == LR_EINVSIZE {
        err == (Error::InvalidObsSize { expected: 0, actual: 0 })
    } else if code == LR_EINVARIANT {
        err@ == ErrorModel::InvariantViolation("FFI: Invariant violation"@)
    } else if code == LR_EOUTOFMEM {
        err@ == ErrorModel::OutOfMemory("FFI: Out of memory"@)
    } else {
        err@ == ErrorModel::Internal("FFI: Unknown error code "@ + signed_decimal(code as int))
    }
}

/// Builds a representative error for a status code. Codes without a kind of
/// their own, `LR_OK` among them, give an `Internal` error that names the code.
pub fn code_to_error(code: i32) -> (err: Error)
    ensures
        stands_for(err, code),
{
    if code == LR_EBADWEIGHTS {
        Error::InvalidWeights(String::from_str("FFI: Bad weights"))
    } else if code == LR_EINVSIZE {
        Error::InvalidObsSize { expected: 0, actual: 0 }
    } else if code == LR_EINVARIANT {
        Error::InvariantViolation(String::from_str("FFI: Invariant violation"))
    } else if code == LR_EOUTOFMEM {
        Error::OutOfMemory(String::from_str("FFI: Out of memory"))
    } else {
        let mut out = String::from_str("FFI: Unknown error code ");
        push_signed_decimal(&mut out, code);
        Error::Internal(out)
    }
}

/// Going from a code to its error and back gives the code again for the four
/// codes that have a kind of their own, and `LR_EINTERNAL` for every other code.
pub proof fn lemma_code_round_trip(code: i32, err: Error)
    requires
        stands_for(err, code),
    ensures
        LR_EOUTOFMEM <= code <= LR_EBADWEIGHTS ==> code_of(err) == code,
        !(LR_EOUTOFMEM <= code <= LR_EBADWEIGHTS) ==> code_of(err) == LR_EINTERNAL,
{
}

} // verus!
