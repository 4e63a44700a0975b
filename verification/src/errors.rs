//! The caller-facing error taxonomy: bad request input, or an internal
//! failure somewhere below the orchestrator. No further detail of a remote
//! fault is leaked to the caller; the message is for local diagnostics.

use vstd::prelude::*;

verus! {

/// Machine-readable error category.
#[derive(Clone, Copy, Debug, PartialEq, Eq, Structural)]
pub enum ErrorKind {
    /// Malformed hex or numeric literal in the request; rejected before any
    /// remote call.
    InvalidParams,
    /// A remote query failed hard, or the engine aborted abnormally.
    InternalError,
}

/// A structured error: category plus a human-readable message.
#[derive(Debug)]
pub struct EvmError {
    pub kind: ErrorKind,
    pub message: String,
}

impl EvmError {
    /// A client-input error.
    pub fn invalid_params(message: String) -> (e: EvmError)
        ensures
            e.kind == ErrorKind::InvalidParams,
            e.message == message,
    {
        EvmError { kind: ErrorKind::InvalidParams, message }
    }

    /// A generic internal error.
    pub fn internal(message: String) -> (e: EvmError)
        ensures
            e.kind == ErrorKind::InternalError,
            e.message == message,
    {
        EvmError { kind: ErrorKind::InternalError, message }
    }
}

} // verus!
