use vstd::prelude::*;

verus! {

/// Every way a pairing, discovery or transfer step can end without success.
#[derive(Debug, Clone, Copy, PartialEq, Eq, Structural)]
pub enum SessionError {
    /// The entered text is not a pairing code.
    MalformedCode,
    /// No live advertisement carries the fingerprint.
    NotFound,
    /// The wait for an advertisement ran past its deadline.
    Timeout,
    /// More than one live advertisement carries the fingerprint.
    AmbiguousMatch,
    /// The two sides did not derive the same confirmation value.
    AuthenticationFailed,
    /// The link dropped, or a message came in a phase that does not expect it.
    TransportError,
    /// A chunk or a finished file failed its check.
    IntegrityFailure { file: usize, offset: u64 },
    /// The code was consumed or outlived its lifetime.
    ExpiredCode,
}

/// The process exit code for a session that ended with `e`: authentication, lookup and
/// integrity failures each have their own, every other error shares one.
pub fn exit_code(e: SessionError) -> (r: u8)
    ensures
        r == match e {
            SessionError::AuthenticationFailed => 2u8,
            SessionError::NotFound | SessionError::Timeout | SessionError::AmbiguousMatch => 3u8,
            SessionError::IntegrityFailure { .. } => 4u8,
            _ => 1u8,
        },
        r != 0,
{
    match e {
        SessionError::AuthenticationFailed => 2,
        SessionError::NotFound | SessionError::Timeout | SessionError::AmbiguousMatch => 3,
        SessionError::IntegrityFailure { .. } => 4,
        _ => 1,
    }
}

} // verus!
