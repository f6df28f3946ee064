use p2p_transfer::protocol::{DeviceId, Fingerprint};
use p2p_transfer::rendezvous::{
    check_registration, interpret_response, is_valid_code, match_for, refusal_reason, ClientError, PairingTable,
    Refusal, RegisterRequest, RendezvousMessage, RENDEZVOUS_PROTOCOL_VERSION,
};
use p2p_transfer::stun::{IpAddress, SocketAddress};

fn request(code: &str, ip: [u8; 4], port: u16, fp: Fingerprint, id: DeviceId) -> RegisterRequest {
    RegisterRequest {
        protocol_version: RENDEZVOUS_PROTOCOL_VERSION,
        code: code.to_string(),
        public_endpoint: SocketAddress { ip: IpAddress::V4(ip), port },
        cert_fingerprint: fp,
        device_id: id,
    }
}

#[test]
fn matches_two_peers_with_same_code() {
    let a = request("ABC123", [1, 2, 3, 4], 5678, [0xAA; 32], [0x01; 16]);
    let b = request("ABC123", [5, 6, 7, 8], 9012, [0xBB; 32], [0x02; 16]);
    let mut table = PairingTable::new();

    let first = check_registration(RendezvousMessage::Register(a.clone()), IpAddress::V4([1, 2, 3, 4])).unwrap();
    assert!(table.take_waiter(&first.code, 1_000).is_none());
    assert!(table.add_waiter(first, 1_000, 300_000));

    let second = check_registration(RendezvousMessage::Register(b.clone()), IpAddress::V4([5, 6, 7, 8])).unwrap();
    let waiter = table.take_waiter(&second.code, 2_000).expect("first peer waits");

    let a_match = interpret_response(match_for(&second)).unwrap();
    let b_match = interpret_response(match_for(&waiter.first)).unwrap();
    assert_eq!(a_match.endpoint, b.public_endpoint);
    assert_eq!(a_match.fingerprint, b.cert_fingerprint);
    assert_eq!(a_match.device_id, b.device_id);
    assert_eq!(b_match.endpoint, a.public_endpoint);
    assert_eq!(b_match.fingerprint, a.cert_fingerprint);
    assert_eq!(b_match.device_id, a.device_id);

    assert!(table.take_waiter(&"ABC123".to_string(), 3_000).is_none());
}

#[test]
fn rejects_bad_code() {
    let bad = request("!", [1, 2, 3, 4], 5678, [0u8; 32], [0u8; 16]);
    let refusal = check_registration(RendezvousMessage::Register(bad), IpAddress::V4([1, 2, 3, 4])).unwrap_err();
    assert_eq!(refusal, Refusal::BadCode);
    let reply = RendezvousMessage::Rejected { reason: refusal_reason(refusal) };
    match interpret_response(reply) {
        Err(ClientError::Rejected(reason)) => assert!(reason.contains("code")),
        other => panic!("expected Rejected, got {other:?}"),
    }
}

#[test]
fn codes_expire_and_are_held_once() {
    let a = request("WXYZ", [1, 1, 1, 1], 1, [1; 32], [1; 16]);
    let c = request("WXYZ", [3, 3, 3, 3], 3, [3; 32], [3; 16]);
    let mut table = PairingTable::new();
    assert!(table.add_waiter(a.clone(), 0, 100));
    assert!(!table.add_waiter(c, 10, 100));
    assert!(table.take_waiter(&"WXYZ".to_string(), 100).is_none());
    assert!(table.add_waiter(a.clone(), 200, 100));
    table.release(&"WXYZ".to_string(), &[9u8; 16]);
    assert!(table.take_waiter(&"WXYZ".to_string(), 250).is_some());
    assert!(table.add_waiter(a.clone(), 300, 100));
    table.release(&"WXYZ".to_string(), &[1u8; 16]);
    assert!(table.take_waiter(&"WXYZ".to_string(), 310).is_none());
}

#[test]
fn registration_checks_and_client_errors() {
    assert!(is_valid_code("abcd"));
    assert!(is_valid_code(&"A".repeat(32)));
    assert!(!is_valid_code("abc"));
    assert!(!is_valid_code(&"A".repeat(33)));
    assert!(!is_valid_code("ab-cd"));
    assert!(!is_valid_code("abcé"));
    let mut old = request("ABCD", [1, 1, 1, 1], 1, [0; 32], [0; 16]);
    old.protocol_version = RENDEZVOUS_PROTOCOL_VERSION + 1;
    assert_eq!(check_registration(RendezvousMessage::Register(old), IpAddress::V4([1, 1, 1, 1])).unwrap_err(), Refusal::WrongVersion { peer: 2 });
    assert_eq!(
        refusal_reason(Refusal::WrongVersion { peer: 2 }),
        "unsupported rendezvous protocol version 2 (server speaks 1)"
    );
    assert_eq!(check_registration(RendezvousMessage::Expired, IpAddress::V4([1, 1, 1, 1])).unwrap_err(), Refusal::NotRegister);
    assert!(matches!(interpret_response(RendezvousMessage::Expired), Err(ClientError::Expired)));
    let echo = RendezvousMessage::Register(request("ABCD", [1, 1, 1, 1], 1, [0; 32], [0; 16]));
    assert!(matches!(interpret_response(echo), Err(ClientError::UnexpectedFromServer(_))));
}

#[test]
fn the_match_carries_the_source_ip_and_the_claimed_port() {
    let a = request("ZZZZ99", [1, 2, 3, 4], 5678, [0xAA; 32], [0x01; 16]);
    let b = request("ZZZZ99", [5, 6, 7, 8], 9012, [0xBB; 32], [0x02; 16]);
    let mut table = PairingTable::new();
    let first = check_registration(RendezvousMessage::Register(a), IpAddress::V4([10, 0, 0, 1])).unwrap();
    assert!(table.add_waiter(first, 1_000, 300_000));
    let second = check_registration(RendezvousMessage::Register(b), IpAddress::V4([10, 0, 0, 2])).unwrap();
    let waiter = table.take_waiter(&second.code, 2_000).unwrap();
    let a_learns = interpret_response(match_for(&second)).unwrap();
    let b_learns = interpret_response(match_for(&waiter.first)).unwrap();
    assert_eq!(a_learns.endpoint, SocketAddress { ip: IpAddress::V4([10, 0, 0, 2]), port: 9012 });
    assert_eq!(b_learns.endpoint, SocketAddress { ip: IpAddress::V4([10, 0, 0, 1]), port: 5678 });
}
