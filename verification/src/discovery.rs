//! LAN discovery: the beacon a device broadcasts, the checks on a
//! received beacon, and the table entry kept for a discovered peer.
//! Times are millisecond readings of the system clock.

use vstd::prelude::*;

use crate::clock::unix_time_ms;
use crate::error::Error;
use crate::protocol::{Capabilities, DeviceId, DiscoveryBeacon, Fingerprint};
use crate::stun::{IpAddress, SocketAddress};
use crate::PROTOCOL_VERSION;

verus! {

/// Largest datagram a beacon may take.
pub const MAX_PACKET_SIZE: usize = 1500;

/// What a device announces about itself.
#[derive(Debug, Clone)]
pub struct DiscoveryIdentity {
    pub device_id: DeviceId,
    pub device_name: String,
    pub transfer_port: u16,
    pub capabilities: Capabilities,
    pub cert_fingerprint: Fingerprint,
}

impl DiscoveryIdentity {
    /// The beacon announcing this device.
    pub fn create_beacon(&self) -> (r: DiscoveryBeacon)
        ensures
            r.version == PROTOCOL_VERSION,
            r.device_id == self.device_id,
            r.device_name == self.device_name,
            r.port == self.transfer_port,
            r.capabilities == self.capabilities,
            r.cert_fingerprint == self.cert_fingerprint,
    {
        DiscoveryBeacon {
            version: PROTOCOL_VERSION,
            device_id: self.device_id,
            device_name: self.device_name.clone(),
            port: self.transfer_port,
            capabilities: self.capabilities,
            cert_fingerprint: self.cert_fingerprint,
        }
    }

    /// The device identifier.
    pub fn device_id(&self) -> (r: DeviceId)
        ensures
            r == self.device_id,
    {
        self.device_id
    }

    /// The device name.
    pub fn device_name(&self) -> (r: &str)
        ensures
            r@ == self.device_name@,
    {
        self.device_name.as_str()
    }
}

/// An encoded beacon of `len` bytes fits in one datagram, or is refused.
pub fn check_beacon_size(len: usize) -> (r: Result<(), Error>)
    ensures
        r is Ok <==> len <= MAX_PACKET_SIZE,
        r is Err ==> r matches Err(Error::Protocol(_)),
{
    if len > MAX_PACKET_SIZE {
        Err(Error::Protocol("Beacon too large".to_string()))
    } else {
        Ok(())
    }
}

/// A received beacon is kept only when it speaks this protocol version.
pub fn accept_beacon(beacon: DiscoveryBeacon) -> (r: Result<DiscoveryBeacon, Error>)
    ensures
        beacon.version == PROTOCOL_VERSION ==> (r matches Ok(b) && b == beacon),
        beacon.version != PROTOCOL_VERSION ==> (r matches Err(
            Error::VersionMismatch { peer, ours },
        ) && peer == beacon.version && ours == PROTOCOL_VERSION),
{
    if beacon.version != PROTOCOL_VERSION {
        Err(Error::VersionMismatch { peer: beacon.version, ours: PROTOCOL_VERSION })
    } else {
        Ok(beacon)
    }
}

/// A peer found by discovery.
#[derive(Debug, Clone)]
pub struct PeerInfo {
    pub device_id: DeviceId,
    pub device_name: String,
    pub address: IpAddress,
    pub port: u16,
    pub capabilities: Capabilities,
    /// Clock reading (ms) of the last beacon seen from the peer
    pub last_seen_ms: u64,
}

/// Whether a peer last seen at `last_seen` is alive at `now` for `ttl`: the
/// time since it was seen is below `ttl` (a last sighting after `now`
/// counts as dead).
pub open spec fn spec_alive(last_seen: u64, now: u64, ttl: u64) -> bool {
    now >= last_seen && now - last_seen < ttl
}

impl PeerInfo {
    /// The entry for the sender of `beacon`, seen at `address` at `now_ms`.
    pub fn from_beacon_at(beacon: DiscoveryBeacon, address: IpAddress, now_ms: u64) -> (r: Self)
        ensures
            r.device_id == beacon.device_id,
            r.device_name == beacon.device_name,
            r.address == address,
            r.port == beacon.port,
            r.capabilities == beacon.capabilities,
            r.last_seen_ms == now_ms,
    {
        PeerInfo {
            device_id: beacon.device_id,
            device_name: beacon.device_name,
            address,
            port: beacon.port,
            capabilities: beacon.capabilities,
            last_seen_ms: now_ms,
        }
    }

    /// The entry for the sender of `beacon`, seen at `address` now.
    pub fn from_beacon(beacon: DiscoveryBeacon, address: IpAddress) -> (r: Self)
        ensures
            r.device_id == beacon.device_id,
            r.device_name == beacon.device_name,
            r.address == address,
            r.port == beacon.port,
            r.capabilities == beacon.capabilities,
    {
        PeerInfo::from_beacon_at(beacon, address, unix_time_ms())
    }

    /// Whether the peer is alive at `now_ms` for a lifetime of `ttl_ms`.
    pub fn is_alive_at(&self, now_ms: u64, ttl_ms: u64) -> (r: bool)
        ensures
            r == spec_alive(self.last_seen_ms, now_ms, ttl_ms),
    {
        now_ms >= self.last_seen_ms && now_ms - self.last_seen_ms < ttl_ms
    }

    /// Whether the peer is alive now for a lifetime of `ttl_ms`.
    pub fn is_alive(&self, ttl_ms: u64) -> (r: bool)
        ensures
            exists|now: u64| r == spec_alive(self.last_seen_ms, now, ttl_ms),
    {
        let now = unix_time_ms();
        self.is_alive_at(now, ttl_ms)
    }

    /// Record a sighting at `now_ms`.
    pub fn update_last_seen_at(&mut self, now_ms: u64)
        ensures
            *final(self) == (PeerInfo { last_seen_ms: now_ms, ..*old(self) }),
    {
        self.last_seen_ms = now_ms;
    }

    /// Record a sighting now.
    pub fn update_last_seen(&mut self)
        ensures
            *final(self) == (PeerInfo { last_seen_ms: final(self).last_seen_ms, ..*old(self) }),
    {
        let now = unix_time_ms();
        self.update_last_seen_at(now);
    }

    /// The address to connect to.
    pub fn socket_addr(&self) -> (r: SocketAddress)
        ensures
            r.ip == self.address,
            r.port == self.port,
    {
        SocketAddress { ip: self.address, port: self.port }
    }
}

/// A peer seen just now is alive for any positive lifetime, and a fresh
/// sighting makes a peer alive again.
pub proof fn lemma_fresh_sighting_alive(now: u64, ttl: u64)
    requires
        ttl > 0,
    ensures
        spec_alive(now, now, ttl),
{
}

} // verus!
