//! Error type shared by the library.

use vstd::prelude::*;

verus! {

/// Main error type for transfers. Payloads are human-readable messages.
#[derive(Debug, Clone)]
pub enum Error {
    /// Network I/O error
    Network(String),
    /// Protocol-level error
    Protocol(String),
    /// Version mismatch during handshake
    VersionMismatch { peer: u8, ours: u8 },
    /// Compression error
    Compression(String),
    /// Decompression error
    Decompression(String),
    /// Checksum verification failed
    Verification(String),
    /// File system error
    FileSystem(String),
    /// Configuration error
    Config(String),
    /// Serialization error
    Serialization(String),
    /// Deserialization error
    Deserialization(String),
    /// Peer disconnected
    Disconnected,
    /// Connection timeout
    Timeout,
    /// Transfer cancelled by user
    Cancelled,
    /// Transfer not found (for resume)
    TransferNotFound(String),
    /// Invalid chunk
    InvalidChunk(String),
    /// Capability not supported
    UnsupportedCapability(String),
    /// QUIC transport error
    Quic(String),
    /// TLS configuration or certificate error
    Tls(String),
    /// The fingerprint a peer claims is not the one observed for it
    FingerprintMismatch,
    /// Rendezvous server error
    Rendezvous(String),
    /// NAT hole punching could not succeed
    HolePunchFailed(String),
    /// Generic error
    Other(String),
}

/// Errors after which the connection may be re-established and the
/// transfer resumed.
pub open spec fn spec_is_recoverable(e: Error) -> bool {
    e is Network || e is Timeout || e is Disconnected || e is Quic
}

/// Errors that warrant retrying the failed operation.
pub open spec fn spec_should_retry(e: Error) -> bool {
    e is Network || e is Timeout || e is InvalidChunk
}

impl Error {
    /// Whether this error is recoverable (network, timeout, disconnect,
    /// transport).
    pub fn is_recoverable(&self) -> (r: bool)
        ensures
            r == spec_is_recoverable(*self),
    {
        match self {
            Error::Network(_) | Error::Timeout | Error::Disconnected | Error::Quic(_) => true,
            _ => false,
        }
    }

    /// Whether this error should trigger a retry (network, timeout,
    /// invalid chunk).
    pub fn should_retry(&self) -> (r: bool)
        ensures
            r == spec_should_retry(*self),
    {
        match self {
            Error::Network(_) | Error::Timeout | Error::InvalidChunk(_) => true,
            _ => false,
        }
    }
}

/// A protocol error carrying `msg`.
pub fn protocol_error(msg: &str) -> (r: Error)
    ensures
        r matches Error::Protocol(m) && m@ == msg@,
{
    Error::Protocol(msg.to_string())
}

} // verus!
