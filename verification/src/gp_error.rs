//! Error type of GlobalPlatform operations.
use vstd::prelude::*;

use crate::error::{CommandError, ProcessorError, ResponseError, SecureProtocolError, StatusError, TransportError};
use crate::gp_responses::{GetResponseError, PutKeyError, StoreDataError};
use crate::status::StatusWord;

verus! {

/// Error type for GlobalPlatform operations
#[derive(Debug, Clone, PartialEq, Eq)]
pub enum Error {
    /// Transport-related errors
    Transport(TransportError),
    /// Command-related errors
    Command(CommandError),
    /// Response-related errors
    Response(ResponseError),
    /// Status errors (for status words)
    Status(StatusError),
    /// Processor-related errors
    Processor(ProcessorError),
    /// Secure protocol related errors
    SecureProtocol(SecureProtocolError),
    /// Secure channel not established
    NoSecureChannel,
    /// Cryptographic operation failed
    Crypto(&'static str),
    /// Invalid or unsupported data format
    InvalidFormat(&'static str),
    /// Wrong data length
    InvalidLength {
        /// Expected length
        expected: usize,
        /// Actual length
        actual: usize,
    },
    /// Card authentication failed
    AuthenticationFailed(&'static str),
    /// Invalid challenge
    InvalidChallenge(&'static str),
    /// Invalid response
    InvalidResponse(&'static str),
    /// Unsupported SCP version
    UnsupportedScpVersion(u8),
    /// CAP file error
    CapFile(&'static str),
    /// A CAP file's content could not be read
    Io,
    /// Response indicates an error condition
    CardStatus(StatusWord),
    /// Other error
    Other(&'static str),
    /// GET RESPONSE failed
    GetResponseError(GetResponseError),
    /// PUT KEY failed
    PutKeyError(PutKeyError),
    /// STORE DATA failed
    StoreDataError(StoreDataError),
}

/// The GlobalPlatform error for an error of the card executor: same kind, same content
pub open spec fn spec_from_executor_error(e: crate::error::Error) -> Error {
    match e {
        crate::error::Error::Response(r) => Error::Response(r),
        crate::error::Error::Processor(p) => Error::Processor(p),
        crate::error::Error::Transport(t) => Error::Transport(t),
        crate::error::Error::SecureProtocol(s) => Error::SecureProtocol(s),
        crate::error::Error::Other(m) => Error::Other(m),
    }
}

impl Error {
    /// Convert an error of the card executor
    pub fn from_executor_error(e: crate::error::Error) -> (res: Self)
        ensures
            res == spec_from_executor_error(e),
    {
        match e {
            crate::error::Error::Response(r) => Error::Response(r),
            crate::error::Error::Processor(p) => Error::Processor(p),
            crate::error::Error::Transport(t) => Error::Transport(t),
            crate::error::Error::SecureProtocol(s) => Error::SecureProtocol(s),
            crate::error::Error::Other(m) => Error::Other(m),
        }
    }
}

} // verus!
