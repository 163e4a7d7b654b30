//! Core of an interactive-compute kernel manager: interpreter discovery,
//! connection descriptors, wire-protocol message encoding and decoding with
//! keyed signatures, broadcast-frame classification, and session lifecycle.
use vstd::prelude::*;

pub mod text;
pub mod jsonstr;
pub mod crypto;
pub mod codec;
pub mod registry;
pub mod session;
pub mod jsonval;
pub mod listener;
pub mod connection;
pub mod resolver;
pub mod launch;
pub mod discovery;
pub mod latexout;
pub mod typstout;
pub mod search;
pub mod usage;
pub mod records;

verus! {

/// Errors a kernel session operation can end in. Every public operation
/// reports failure through one of these variants; the text carried inside
/// is surfaced to callers verbatim.
#[derive(Clone, Debug, PartialEq, Eq)]
pub enum KernelError {
    /// A spec or connection file was malformed.
    ConfigurationError(String),
    /// No interpreter candidate passed the capability probe.
    InterpreterNotFound(String),
    /// The spawn call itself failed.
    ProcessLaunchFailure(String),
    /// The process spawned but died before verification.
    ProcessExitedEarly(String),
    /// A socket connect, send or receive failed.
    TransportError(String),
    /// No reply arrived within the bound.
    ReplyTimeout,
    /// The session id is unknown or already removed.
    SessionNotFound,
}

impl KernelError {
    /// The error rendered as one descriptive string, as callers expect.
    pub fn message(self) -> (r: String)
        ensures
            match self {
                KernelError::ConfigurationError(s) => r == s,
                KernelError::InterpreterNotFound(s) => r == s,
                KernelError::ProcessLaunchFailure(s) => r == s,
                KernelError::ProcessExitedEarly(s) => r == s,
                KernelError::TransportError(s) => r == s,
                KernelError::ReplyTimeout => r@ == "Reply timed out"@,
                KernelError::SessionNotFound => r@ == "Kernel not found"@,
            },
    {
        match self {
            KernelError::ConfigurationError(s) => s,
            KernelError::InterpreterNotFound(s) => s,
            KernelError::ProcessLaunchFailure(s) => s,
            KernelError::ProcessExitedEarly(s) => s,
            KernelError::TransportError(s) => s,
            KernelError::ReplyTimeout => String::from_str("Reply timed out"),
            KernelError::SessionNotFound => String::from_str("Kernel not found"),
        }
    }
}

} // verus!
