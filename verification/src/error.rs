//! Error types of the transport primitives and of the log client.

use vstd::prelude::*;

verus! {

/// Errors surfaced by the transport primitives.
#[derive(Debug, PartialEq)]
pub enum GtsTransportError {
    /// A logic error described by a message.
    LogicError(String),
    /// A general error described by a message.
    CommonError(String),
    /// A torn read was observed; retrying may succeed.
    Inconsistent,
    /// Retries on torn reads were exhausted; the producer is stuck or misused.
    InconsistentHang,
    /// The channel has never been written since the region was created.
    Unitialized,
    /// No new value, or no free space; the caller may retry later.
    WouldBlock,
    /// An operating-system call failed during region setup.
    StdIoError(String),
    /// A shared-memory segment operation failed.
    ShmemError(ShmemError),
}

/// Errors of the named shared-memory backend.
#[derive(Debug, PartialEq)]
pub enum ShmemError {
    /// An operating-system call failed; the message describes it.
    StdIoError(String),
}

/// Errors surfaced by the log client.
#[derive(Debug, PartialEq)]
pub enum GtsLoggerError {
    /// A general error described by a message.
    CommonError(String),
    /// A transport error propagated from the underlying ring.
    TransportWouldBlock(GtsTransportError),
}

} // verus!
