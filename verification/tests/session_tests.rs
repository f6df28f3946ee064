use p2p_transfer::error::Error;
use p2p_transfer::protocol::{ConfigMessage, FileMetadata};
use p2p_transfer::session::{
    parse_peer_addr, peer_gone, plan_after_discovery, plan_establish, retry_decision, transfer_id_for,
    choose_transfer_id, EstablishPlan, PeerAddrText, RetryDecision,
};
use p2p_transfer::stun::{IpAddress, SocketAddress};
use p2p_transfer::transfer_folder::FolderTransferState;

fn addr() -> SocketAddress {
    SocketAddress { ip: IpAddress::V4([10, 0, 0, 9]), port: 4000 }
}

#[test]
fn peer_addresses() {
    let full = PeerAddrText { as_socket_addr: Some(addr()), as_ip: None };
    assert_eq!(parse_peer_addr(full, 1).unwrap(), addr());
    let bare = PeerAddrText { as_socket_addr: None, as_ip: Some(IpAddress::V4([10, 0, 0, 9])) };
    assert_eq!(parse_peer_addr(bare, 4000).unwrap(), addr());
    let none = PeerAddrText { as_socket_addr: None, as_ip: None };
    assert!(matches!(parse_peer_addr(none, 1), Err(Error::Protocol(_))));
}

#[test]
fn establishing_by_role() {
    let cfg = Some(ConfigMessage::default());
    let text = PeerAddrText { as_socket_addr: Some(addr()), as_ip: None };
    match plan_establish("client", Some(text), Some([3u8; 32]), false, 7, cfg).unwrap() {
        EstablishPlan::Connect { addr: a, fingerprint, .. } => {
            assert_eq!(a, addr());
            assert_eq!(fingerprint, [3u8; 32]);
        }
        other => panic!("expected to connect, got {other:?}"),
    }
    assert!(matches!(plan_establish("client", Some(text), None, false, 7, cfg), Err(Error::Protocol(_))));
    assert!(matches!(plan_establish("client", Some(text), Some([3u8; 32]), false, 7, None), Err(Error::Protocol(_))));
    assert!(matches!(plan_establish("client", None, None, true, 7, None), Ok(EstablishPlan::Discover { port: 7 })));
    assert!(matches!(plan_establish("client", None, None, false, 7, cfg), Err(Error::Protocol(_))));
    assert!(matches!(plan_establish("server", None, None, false, 7, None), Ok(EstablishPlan::Accept { port: 7 })));
    assert!(matches!(plan_after_discovery(None, cfg), Err(Error::Protocol(_))));
    assert!(matches!(plan_after_discovery(Some((addr(), [1u8; 32])), None), Err(Error::Protocol(_))));
    assert!(matches!(plan_after_discovery(Some((addr(), [1u8; 32])), cfg), Ok(EstablishPlan::Connect { .. })));
}

#[test]
fn retries_and_endings() {
    assert_eq!(retry_decision(&Error::Timeout, true), RetryDecision::Retry);
    assert_eq!(retry_decision(&Error::Timeout, false), RetryDecision::GiveUp);
    assert_eq!(retry_decision(&Error::Protocol("x".to_string()), true), RetryDecision::Fail);
    assert!(peer_gone(&Error::Disconnected));
    assert!(peer_gone(&Error::Quic("closed".to_string())));
    assert!(!peer_gone(&Error::Timeout));
}

#[test]
fn transfer_ids() {
    let empty = FolderTransferState::new([4u8; 16], String::new(), vec![]);
    assert_eq!(transfer_id_for(&empty, [9u8; 16]), [9u8; 16]);
    let files = vec![FileMetadata { path: "a".to_string(), size: 1, modified: 0, checksum: [0u8; 32] }];
    let saved = FolderTransferState::new([4u8; 16], String::new(), files);
    assert_eq!(transfer_id_for(&saved, [9u8; 16]), [4u8; 16]);
    assert_eq!(choose_transfer_id(&saved), [4u8; 16]);
    let fresh = choose_transfer_id(&empty);
    assert_eq!(fresh[6] & 0xf0, 0x40);
    assert_eq!(fresh[8] & 0xc0, 0x80);
}
