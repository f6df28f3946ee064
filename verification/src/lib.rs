//! Peer-to-peer file transfer: the protocol, framing, chunking, resume
//! bookkeeping, NAT probing and pairing logic, with their contracts.

mod clock;
pub mod cli;
pub mod compression;
pub mod config;
pub mod discovery;
pub mod error;
pub mod folder_flow;
pub mod framing;
pub mod gui;
pub mod handshake;
pub mod history;
pub mod stun;
pub mod text;
pub mod traversal;
pub mod transfer_file;
pub mod transfer_folder;
pub mod verification;
pub mod protocol;
pub mod rendezvous;
pub mod session;
pub mod window;

use vstd::prelude::*;

verus! {

/// Protocol version spoken by this build.
pub const PROTOCOL_VERSION: u8 = 2;

/// Minimum supported protocol version (equal to the current one).
pub const MIN_PROTOCOL_VERSION: u8 = 2;

/// Default chunk size (64 KiB).
pub const DEFAULT_CHUNK_SIZE: u32 = 65536;

/// Default discovery port (UDP LAN beacons).
pub const DEFAULT_DISCOVERY_PORT: u16 = 14566;

/// Default transfer port.
pub const DEFAULT_TRANSFER_PORT: u16 = 14567;

/// Default rendezvous server port.
pub const DEFAULT_RENDEZVOUS_PORT: u16 = 14570;

} // verus!
