//! The failures that the library reports.

use vstd::prelude::*;

verus! {

/// Declares `std::io::Error`, the cause of a device failure, which the library
/// carries from the place where it arose to the caller without looking inside.
#[verifier::external_type_specification]
#[verifier::external_body]
pub struct ExIoError(std::io::Error);

/// A delimiter of the cursor-position reply.
#[derive(Clone, Copy, Debug, PartialEq, Eq, Structural)]
pub enum Token {
    /// The final `R`.
    Terminator,
    /// The `;` between row and column.
    Separator,
    /// The `[` that opens the parameters.
    Introducer,
}

/// Why an operation of the library failed.
#[derive(Debug)]
pub enum Error {
    /// The deadline passed before any qualifying progress was made. Retryable.
    TimedOut,
    /// The device reported a failure while reading or writing.
    Device(std::io::Error),
    /// The background producer of keyboard events is gone.
    Disconnected,
    /// A cursor-position reply lacks the given delimiter.
    MalformedReply(Token),
    /// A coordinate of a cursor-position reply is not a decimal number that fits.
    NonNumericField,
    /// The terminal attributes could not be read or written, typically because
    /// the input is not an interactive device.
    StateUnavailable(std::io::Error),
}

} // verus!
