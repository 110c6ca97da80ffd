//! Failures of decoding and of the interfaces.

use vstd::prelude::*;

verus! {

/// The error of `std::io`, as a device reports it. Nothing is known of what
/// it holds.
#[verifier::external_type_specification]
#[verifier::external_body]
pub struct ExIoError(std::io::Error);

/// Why a byte buffer could not be decoded.
#[derive(Debug, Clone, Copy, PartialEq, Eq, Structural)]
pub enum FormatError {
    /// The buffer ended before the structure was complete.
    Truncated,
}

/// Why an interface could not receive or send.
#[derive(Debug)]
pub enum Error {
    /// The device failed; its error is handed on as it came.
    Io(std::io::Error),
    /// What the device delivered is no frame.
    Format(FormatError),
    /// The interface's patience ran out before the awaited frame came.
    TimedOut,
}

} // verus!
