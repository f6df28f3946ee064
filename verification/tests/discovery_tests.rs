use p2p_transfer::discovery::{accept_beacon, check_beacon_size, DiscoveryIdentity, PeerInfo, MAX_PACKET_SIZE};
use p2p_transfer::error::Error;
use p2p_transfer::protocol::{Capabilities, DiscoveryBeacon};
use p2p_transfer::stun::IpAddress;

fn beacon(version: u8) -> DiscoveryBeacon {
    DiscoveryBeacon {
        version,
        device_id: [1u8; 16],
        device_name: "Test".to_string(),
        port: 7778,
        capabilities: Capabilities::all(),
        cert_fingerprint: [0u8; 32],
    }
}

#[test]
fn test_peer_info_lifetime() {
    let mut peer = PeerInfo::from_beacon(beacon(1), IpAddress::V4([127, 0, 0, 1]));

    assert!(peer.is_alive(60_000));

    peer.update_last_seen();
    assert!(peer.is_alive(60_000));
}

#[test]
fn test_peer_socket_addr() {
    let peer = PeerInfo::from_beacon(beacon(1), IpAddress::V4([127, 0, 0, 1]));
    let addr = peer.socket_addr();

    assert_eq!(addr.port, 7778);
    assert_eq!(addr.ip, IpAddress::V4([127, 0, 0, 1]));
}

#[test]
fn liveness_against_a_given_clock() {
    let peer = PeerInfo::from_beacon_at(beacon(2), IpAddress::V4([10, 0, 0, 1]), 1000);
    assert!(peer.is_alive_at(1000, 1));
    assert!(peer.is_alive_at(1500, 501));
    assert!(!peer.is_alive_at(1500, 500));
    assert!(!peer.is_alive_at(999, 10_000));
}

#[test]
fn beacons_are_checked() {
    assert!(accept_beacon(beacon(2)).is_ok());
    assert!(matches!(accept_beacon(beacon(1)), Err(Error::VersionMismatch { peer: 1, ours: 2 })));
    assert!(check_beacon_size(MAX_PACKET_SIZE).is_ok());
    assert!(matches!(check_beacon_size(MAX_PACKET_SIZE + 1), Err(Error::Protocol(_))));
    let me = DiscoveryIdentity {
        device_id: [4u8; 16],
        device_name: "Test Device".to_string(),
        transfer_port: 7778,
        capabilities: Capabilities::all(),
        cert_fingerprint: [8u8; 32],
    };
    let b = me.create_beacon();
    assert_eq!(b.version, 2);
    assert_eq!(b.device_name, "Test Device");
    assert_eq!(me.device_name(), "Test Device");
    assert_eq!(b.port, 7778);
}

#[test]
fn test_create_discovery_service() {
    let identity = DiscoveryIdentity {
        device_id: [5u8; 16],
        device_name: "Test Device".to_string(),
        transfer_port: 7778,
        capabilities: Capabilities::all(),
        cert_fingerprint: [0u8; 32],
    };
    assert_eq!(identity.device_name(), "Test Device");
    let b = identity.create_beacon();
    assert_eq!(b.device_name, "Test Device");
    assert_eq!(b.port, 7778);
}
