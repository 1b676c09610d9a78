use vstd::prelude::*;

verus! {

/// A violation of the protocol by the host. None of these is answered on the
/// wire: the process that meets one ends without writing a response.
///
/// An unknown method or a handler that reports failure is not among them; both
/// are ordinary replies.
#[derive(Debug, Clone, Copy, PartialEq, Eq, Structural)]
pub enum FatalError {
    /// The length line is missing, is not text, or is not an unsigned decimal
    /// number that fits the machine.
    InvalidLength,
    /// The input ended before the declared number of payload bytes arrived.
    TruncatedPayload,
    /// The payload is not UTF-8 text.
    InvalidUtf8,
    /// The payload is not a JSON document of the shape of a request.
    InvalidRequest,
    /// The identity document could not be written as JSON.
    Serialization,
}

/// Whether an outcome is the success `value`.
pub open spec fn succeeds_with<T>(outcome: Result<T, FatalError>, value: T) -> bool {
    outcome == Ok::<T, FatalError>(value)
}

/// Whether an outcome is the failure `error`.
pub open spec fn fails_with<T>(outcome: Result<T, FatalError>, error: FatalError) -> bool {
    outcome == Err::<T, FatalError>(error)
}

} // verus!
