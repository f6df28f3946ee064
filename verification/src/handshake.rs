//! The connection handshake, as the decisions each side takes on each
//! message it receives.
//!
//! Initiator: sends `Hello`, expects `HelloAck` (checks the peer's version),
//! sends `Config`, expects `ConfigAck`. Responder: expects `Hello` (checks
//! the version), sends `HelloAck`, expects `Config` (refuses compression
//! when the agreed capabilities lack it), sends `ConfigAck`. The caller
//! moves the messages; these functions decide what they mean.

use vstd::prelude::*;

use crate::verification::digest_eq;

use crate::error::Error;
use crate::protocol::{
    has_flag, Capabilities, ConfigMessage, DeviceId, Fingerprint, HelloMessage, Message,
    TransferInfo, CAP_COMPRESSION,
};
use crate::{MIN_PROTOCOL_VERSION, PROTOCOL_VERSION};

verus! {

/// What a completed handshake settled.
#[derive(Debug, Clone, Copy)]
pub struct HandshakeResult {
    /// The peer's device identifier
    pub peer_device_id: DeviceId,
    /// The peer's certificate fingerprint, as announced in its hello
    pub peer_fingerprint: Fingerprint,
    /// The capabilities the peer announced
    pub peer_capabilities: Capabilities,
    /// The capabilities both sides share
    pub agreed_capabilities: Capabilities,
    /// The transfer configuration the initiator proposed
    pub config: ConfigMessage,
}

/// The hello a side sends: this build's versions and its own identity.
pub open spec fn spec_hello(device_id: DeviceId, capabilities: Capabilities, fingerprint: Fingerprint) -> HelloMessage {
    HelloMessage {
        protocol_version: PROTOCOL_VERSION,
        min_version: MIN_PROTOCOL_VERSION,
        device_id,
        capabilities,
        cert_fingerprint: fingerprint,
    }
}

/// The initiator accepts a peer speaking a version between the minimum
/// and the current one.
pub open spec fn initiator_accepts(peer: HelloMessage) -> bool {
    MIN_PROTOCOL_VERSION <= peer.protocol_version <= PROTOCOL_VERSION
}

/// The responder accepts a peer whose version is at least the minimum and
/// whose own minimum is at most the current version.
pub open spec fn responder_accepts(peer: HelloMessage) -> bool {
    peer.protocol_version >= MIN_PROTOCOL_VERSION && peer.min_version <= PROTOCOL_VERSION
}

/// The result a side records after a handshake with `peer`.
pub open spec fn spec_result(
    ours: Capabilities,
    peer: HelloMessage,
    config: ConfigMessage,
) -> HandshakeResult {
    HandshakeResult {
        peer_device_id: peer.device_id,
        peer_fingerprint: peer.cert_fingerprint,
        peer_capabilities: peer.capabilities,
        agreed_capabilities: Capabilities { bits: ours.bits & peer.capabilities.bits },
        config,
    }
}

/// The version-mismatch error for a peer announcing `peer_version`.
pub open spec fn version_mismatch(peer_version: u8) -> Error {
    Error::VersionMismatch { peer: peer_version, ours: PROTOCOL_VERSION }
}

/// Handshake initiator.
pub struct HandshakeClient {
    pub device_id: DeviceId,
    pub capabilities: Capabilities,
    pub cert_fingerprint: Fingerprint,
}

impl HandshakeClient {
    /// An initiator announcing `device_id`, `capabilities` and the
    /// fingerprint of its certificate.
    pub fn new(device_id: DeviceId, capabilities: Capabilities, cert_fingerprint: Fingerprint) -> (r: Self)
        ensures
            r.device_id == device_id,
            r.capabilities == capabilities,
            r.cert_fingerprint == cert_fingerprint,
    {
        HandshakeClient { device_id, capabilities, cert_fingerprint }
    }

    /// The first message: `Hello`.
    pub fn hello(&self) -> (r: Message)
        ensures
            r == Message::Hello(spec_hello(self.device_id, self.capabilities, self.cert_fingerprint)),
    {
        Message::Hello(
            HelloMessage {
                protocol_version: PROTOCOL_VERSION,
                min_version: MIN_PROTOCOL_VERSION,
                device_id: self.device_id,
                capabilities: self.capabilities,
                cert_fingerprint: self.cert_fingerprint,
            },
        )
    }

    /// The reply to `Hello`: a `HelloAck` from a peer of a supported
    /// version whose claimed fingerprint is the one the transport
    /// `observed` is accepted; an error message, another message, another
    /// version or a fingerprint mismatch ends the handshake.
    pub fn on_hello_ack(&self, msg: &Message, observed: Option<Fingerprint>) -> (r: Result<
        HelloMessage,
        Error,
    >)
        ensures
            match msg {
                Message::HelloAck(h) => if initiator_accepts(*h) {
                    if fingerprint_observed(h.cert_fingerprint, observed) {
                        r == Ok::<HelloMessage, Error>(*h)
                    } else {
                        r matches Err(Error::FingerprintMismatch)
                    }
                } else {
                    r == Err::<HelloMessage, Error>(version_mismatch(h.protocol_version))
                },
                _ => r matches Err(Error::Protocol(_)),
            },
    {
        match msg {
            Message::HelloAck(h) => {
                if h.protocol_version < MIN_PROTOCOL_VERSION || h.protocol_version > PROTOCOL_VERSION {
                    Err(Error::VersionMismatch { peer: h.protocol_version, ours: PROTOCOL_VERSION })
                } else {
                    match cross_check_fingerprint(&h.cert_fingerprint, observed) {
                        Ok(()) => Ok(*h),
                        Err(e) => Err(e),
                    }
                }
            },
            Message::Error(e) => Err(Error::Protocol(e.message.clone())),
            _ => Err(Error::Protocol("Expected HelloAck".to_string())),
        }
    }

    /// The message carrying the proposed configuration.
    pub fn config_message(&self, config: ConfigMessage) -> (r: Message)
        ensures
            r == Message::Config(config),
    {
        Message::Config(config)
    }

    /// The reply to `Config`: `ConfigAck` completes the handshake with the
    /// capabilities both sides share and the proposed configuration.
    pub fn on_config_ack(&self, msg: &Message, peer: HelloMessage, config: ConfigMessage) -> (r: Result<
        HandshakeResult,
        Error,
    >)
        ensures
            msg is ConfigAck ==> r == Ok::<HandshakeResult, Error>(
                spec_result(self.capabilities, peer, config),
            ),
            !(msg is ConfigAck) ==> r matches Err(Error::Protocol(_)),
    {
        match msg {
            Message::ConfigAck => Ok(
                HandshakeResult {
                    peer_device_id: peer.device_id,
                    peer_fingerprint: peer.cert_fingerprint,
                    peer_capabilities: peer.capabilities,
                    agreed_capabilities: self.capabilities.intersect(&peer.capabilities),
                    config,
                },
            ),
            Message::Error(e) => Err(Error::Protocol(e.message.clone())),
            _ => Err(Error::Protocol("Expected ConfigAck".to_string())),
        }
    }

    /// The reply to `TransferInfo`: the receiver must answer `Ready`.
    pub fn on_transfer_reply(&self, msg: &Message) -> (r: Result<(), Error>)
        ensures
            r is Ok <==> msg is Ready,
            r is Err ==> r matches Err(Error::Protocol(_)),
    {
        match msg {
            Message::Ready => Ok(()),
            Message::Error(e) => Err(Error::Protocol(e.message.clone())),
            _ => Err(Error::Protocol("Expected Ready".to_string())),
        }
    }
}

/// Handshake responder.
pub struct HandshakeServer {
    pub device_id: DeviceId,
    pub capabilities: Capabilities,
    pub cert_fingerprint: Fingerprint,
}

impl HandshakeServer {
    /// A responder announcing `device_id`, `capabilities` and the
    /// fingerprint of its certificate.
    pub fn new(device_id: DeviceId, capabilities: Capabilities, cert_fingerprint: Fingerprint) -> (r: Self)
        ensures
            r.device_id == device_id,
            r.capabilities == capabilities,
            r.cert_fingerprint == cert_fingerprint,
    {
        HandshakeServer { device_id, capabilities, cert_fingerprint }
    }

    /// The first message received must be a `Hello` of a supported
    /// version, claiming the fingerprint the transport `observed`.
    pub fn on_hello(&self, msg: &Message, observed: Option<Fingerprint>) -> (r: Result<
        HelloMessage,
        Error,
    >)
        ensures
            match msg {
                Message::Hello(h) => if responder_accepts(*h) {
                    if fingerprint_observed(h.cert_fingerprint, observed) {
                        r == Ok::<HelloMessage, Error>(*h)
                    } else {
                        r matches Err(Error::FingerprintMismatch)
                    }
                } else {
                    r == Err::<HelloMessage, Error>(version_mismatch(h.protocol_version))
                },
                _ => r matches Err(Error::Protocol(_)),
            },
    {
        match msg {
            Message::Hello(h) => {
                if h.protocol_version < MIN_PROTOCOL_VERSION || h.min_version > PROTOCOL_VERSION {
                    Err(Error::VersionMismatch { peer: h.protocol_version, ours: PROTOCOL_VERSION })
                } else {
                    match cross_check_fingerprint(&h.cert_fingerprint, observed) {
                        Ok(()) => Ok(*h),
                        Err(e) => Err(e),
                    }
                }
            },
            _ => Err(Error::Protocol("Expected Hello".to_string())),
        }
    }

    /// The answer to an accepted hello: `HelloAck`.
    pub fn hello_ack(&self) -> (r: Message)
        ensures
            r == Message::HelloAck(
                spec_hello(self.device_id, self.capabilities, self.cert_fingerprint),
            ),
    {
        Message::HelloAck(
            HelloMessage {
                protocol_version: PROTOCOL_VERSION,
                min_version: MIN_PROTOCOL_VERSION,
                device_id: self.device_id,
                capabilities: self.capabilities,
                cert_fingerprint: self.cert_fingerprint,
            },
        )
    }

    /// The second message received must be a `Config`; compression is
    /// refused unless both sides support it. On success the caller answers
    /// `ConfigAck`.
    pub fn on_config(&self, msg: &Message, peer: HelloMessage) -> (r: Result<HandshakeResult, Error>)
        ensures
            match msg {
                Message::Config(c) => if c.compression_enabled && !has_flag(
                    self.capabilities.bits & peer.capabilities.bits,
                    CAP_COMPRESSION,
                ) {
                    r matches Err(Error::UnsupportedCapability(_))
                } else {
                    r == Ok::<HandshakeResult, Error>(spec_result(self.capabilities, peer, *c))
                },
                _ => r matches Err(Error::Protocol(_)),
            },
    {
        match msg {
            Message::Config(c) => {
                let agreed = self.capabilities.intersect(&peer.capabilities);
                if c.compression_enabled && !agreed.has_compression() {
                    Err(Error::UnsupportedCapability("Compression not supported".to_string()))
                } else {
                    Ok(
                        HandshakeResult {
                            peer_device_id: peer.device_id,
                            peer_fingerprint: peer.cert_fingerprint,
                            peer_capabilities: peer.capabilities,
                            agreed_capabilities: agreed,
                            config: *c,
                        },
                    )
                }
            },
            _ => Err(Error::Protocol("Expected Config".to_string())),
        }
    }

    /// The message after the handshake must announce a transfer; the
    /// caller answers `Ready`.
    pub fn on_transfer_info(&self, msg: Message) -> (r: Result<TransferInfo, Error>)
        ensures
            match msg {
                Message::TransferInfo(i) => r matches Ok(j) && j == i,
                _ => r matches Err(Error::Protocol(_)),
            },
    {
        match msg {
            Message::TransferInfo(i) => Ok(i),
            _ => Err(Error::Protocol("Expected TransferInfo".to_string())),
        }
    }
}

/// Two builds of this version always accept each other's hello.
pub proof fn lemma_same_version_accepted(
    device_id: DeviceId,
    capabilities: Capabilities,
    fingerprint: Fingerprint,
)
    ensures
        initiator_accepts(spec_hello(device_id, capabilities, fingerprint)),
        responder_accepts(spec_hello(device_id, capabilities, fingerprint)),
{
}

/// After a handshake in which each side took the other's hello, both sides
/// hold the same agreed capabilities and the same configuration, and each
/// records the other's identity.
pub proof fn lemma_both_sides_agree(
    client: HandshakeClient,
    server: HandshakeServer,
    config: ConfigMessage,
)
    ensures
        ({
            let c = spec_result(
                client.capabilities,
                spec_hello(server.device_id, server.capabilities, server.cert_fingerprint),
                config,
            );
            let s = spec_result(
                server.capabilities,
                spec_hello(client.device_id, client.capabilities, client.cert_fingerprint),
                config,
            );
            &&& c.agreed_capabilities == s.agreed_capabilities
            &&& c.config == s.config
            &&& c.peer_device_id == server.device_id
            &&& s.peer_device_id == client.device_id
            &&& c.peer_fingerprint == server.cert_fingerprint
            &&& s.peer_fingerprint == client.cert_fingerprint
        }),
{
    let a = client.capabilities.bits;
    let b = server.capabilities.bits;
    assert(a & b == b & a) by (bit_vector);
}

/// Whether the transport observed exactly the fingerprint a hello claims.
pub open spec fn fingerprint_observed(claimed: Fingerprint, observed: Option<Fingerprint>) -> bool {
    observed matches Some(o) && o@ == claimed@
}

/// The cross-check of the fingerprint a hello claims against the one the
/// transport observed for the peer (the pinned certificate): a mismatch,
/// or no observation at all, is fatal.
pub fn cross_check_fingerprint(claimed: &Fingerprint, observed: Option<Fingerprint>) -> (r: Result<
    (),
    Error,
>)
    ensures
        r is Ok <==> fingerprint_observed(*claimed, observed),
        r is Err ==> r matches Err(Error::FingerprintMismatch),
{
    match observed {
        Some(o) => if digest_eq(&o, claimed) {
            Ok(())
        } else {
            Err(Error::FingerprintMismatch)
        },
        None => Err(Error::FingerprintMismatch),
    }
}

} // verus!
