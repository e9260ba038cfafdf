//! Error types of the APDU layers (transport, response, command, processor,
//! secure protocol and execution).
use vstd::prelude::*;

use crate::status::StatusWord;

verus! {

/// Transport error type
#[derive(Debug, Clone, PartialEq, Eq)]
pub enum TransportError {
    /// Connection error
    Connection,
    /// Transmission error
    Transmission,
    /// Device error
    Device,
    /// Buffer too small
    BufferTooSmall,
    /// Timeout error
    Timeout,
    /// Other error with message
    Other(String),
}

/// Error for status words in APDU responses
#[derive(Debug, Clone, PartialEq, Eq)]
pub struct StatusError {
    /// Status word that caused the error
    pub status: StatusWord,
    /// Optional error message
    pub message: Option<&'static str>,
}

impl StatusError {
    /// Create a new status error
    pub fn new(sw1: u8, sw2: u8) -> (res: Self)
        ensures
            res.status.sw1 == sw1,
            res.status.sw2 == sw2,
            res.message.is_none(),
    {
        Self { status: StatusWord { sw1, sw2 }, message: None }
    }

    /// The status word carried by this error
    pub fn status_word(&self) -> (res: StatusWord)
        ensures
            res == self.status,
    {
        self.status
    }
}

/// Error for APDU response processing
#[derive(Debug, Clone, PartialEq, Eq)]
pub enum ResponseError {
    /// Underlying transport has caused an error
    Transport(TransportError),
    /// Parse error
    Parse(&'static str),
    /// Status error
    Status(StatusError),
    /// Buffer too small
    BufferTooSmall,
    /// Status word error with custom message
    Message(String),
    /// The response is too short to hold a status word
    Incomplete,
}

impl ResponseError {
    /// Create a new status error
    pub fn status(sw1: u8, sw2: u8) -> (res: Self)
        ensures
            res matches ResponseError::Status(e) && e.status.sw1 == sw1 && e.status.sw2 == sw2
                && e.message.is_none(),
    {
        ResponseError::Status(StatusError::new(sw1, sw2))
    }
}

/// Error for APDU command processing
#[derive(Debug, Clone, PartialEq, Eq)]
pub enum CommandError {
    /// Invalid command length
    InvalidLength(usize),
}

/// Error type for secure protocols
#[derive(Debug, Clone, PartialEq, Eq)]
pub enum SecureProtocolError {
    /// Protocol error
    Protocol(&'static str),
    /// Response error
    Response(ResponseError),
    /// Insufficient security level
    InsufficientSecurityLevel,
    /// Authentication failed
    AuthenticationFailed(&'static str),
    /// Session error
    Session(&'static str),
    /// Other error with message
    Other(String),
}

/// Error type for command processors
#[derive(Debug, Clone, PartialEq, Eq)]
pub enum ProcessorError {
    /// Underlying transport error
    Transport(TransportError),
    /// Invalid response
    Response(ResponseError),
    /// Secure channel error
    SecureChannel(SecureProtocolError),
    /// Protocol error
    Protocol(&'static str),
    /// Chain limit exceeded
    ChainLimitExceeded,
    /// A response could not be interpreted
    InvalidResponse(&'static str),
    /// Other error with message
    Other(String),
}

impl ProcessorError {
    /// Create a new protocol error
    pub fn protocol(message: &'static str) -> (res: Self)
        ensures
            res == ProcessorError::Protocol(message),
    {
        ProcessorError::Protocol(message)
    }

    /// Create a general other error
    pub fn other(message: String) -> (res: Self)
        ensures
            res matches ProcessorError::Other(m) && m@ == message@,
    {
        ProcessorError::Other(message)
    }
}

/// Error type for execution operations
#[derive(Debug, Clone, PartialEq, Eq)]
pub enum ExecutionError {
    /// Transport error
    Transport(TransportError),
    /// Response parsing error
    Response(ResponseError),
    /// Command error
    Command(CommandError),
    /// Status error
    Status(StatusError),
    /// Processor error
    Processor(ProcessorError),
    /// Secure channel required
    SecureChannelRequired,
    /// Chain error occurred during a command chain
    Chain(&'static str),
    /// Invalid response format
    InvalidResponseFormat,
    /// Command specific error
    CommandSpecific(&'static str),
    /// Cancelled operation
    Cancelled,
    /// Timeout
    Timeout,
    /// Other error with message
    Other(String),
}

impl ExecutionError {
    /// Create a new command specific error
    pub fn command_error(message: &'static str) -> (res: Self)
        ensures
            res == ExecutionError::CommandSpecific(message),
    {
        ExecutionError::CommandSpecific(message)
    }

    /// Create a new chain error
    pub fn chain_error(message: &'static str) -> (res: Self)
        ensures
            res == ExecutionError::Chain(message),
    {
        ExecutionError::Chain(message)
    }

    /// Check if this error is due to a status word
    pub fn has_status(&self) -> (res: bool)
        ensures
            res == (self is Status),
    {
        match self {
            ExecutionError::Status(_) => true,
            _ => false,
        }
    }

    /// Get the status word if this is a status error
    pub fn status_word(&self) -> (res: Option<StatusWord>)
        ensures
            res == (match self {
                ExecutionError::Status(e) => Some(e.status),
                _ => None::<StatusWord>,
            }),
    {
        match self {
            ExecutionError::Status(e) => Some(e.status_word()),
            _ => None,
        }
    }

    /// Check if this error has the given status word
    pub fn has_status_code(&self, sw: u16) -> (res: bool)
        ensures
            res == (match self {
                ExecutionError::Status(e) => crate::status::sw_value(e.status.sw1, e.status.sw2)
                    == sw as int,
                _ => false,
            }),
    {
        match self.status_word() {
            Some(status) => status.to_u16() == sw,
            None => false,
        }
    }

    /// Create a general other error
    pub fn other(message: String) -> (res: Self)
        ensures
            res matches ExecutionError::Other(m) && m@ == message@,
    {
        ExecutionError::Other(message)
    }
}

/// APDU core error type
#[derive(Debug, Clone, PartialEq, Eq)]
pub enum Error {
    /// Error from response processing
    Response(ResponseError),
    /// Error from command processor
    Processor(ProcessorError),
    /// Error from transport layer
    Transport(TransportError),
    /// Error from secure channel protocol
    SecureProtocol(SecureProtocolError),
    /// Other
    Other(&'static str),
}

} // verus!
