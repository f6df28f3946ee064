use p2p_transfer::error::Error;
use p2p_transfer::handshake::{cross_check_fingerprint, HandshakeClient, HandshakeServer};
use p2p_transfer::protocol::{Capabilities, ConfigMessage, ErrorCode, ErrorMessage, HelloMessage, Message};

fn hello_of(m: &Message) -> HelloMessage {
    match m {
        Message::Hello(h) | Message::HelloAck(h) => *h,
        _ => panic!("not a hello"),
    }
}

#[test]
fn test_handshake_flow() {
    let client = HandshakeClient::new([1u8; 16], Capabilities::all(), [0xAA; 32]);
    let server = HandshakeServer::new([2u8; 16], Capabilities::all(), [0xBB; 32]);

    let hello = client.hello();
    let peer_of_server = server.on_hello(&hello, Some([0xAA; 32])).unwrap();
    let ack = server.hello_ack();
    let peer_of_client = client.on_hello_ack(&ack, Some([0xBB; 32])).unwrap();

    let config = ConfigMessage::default();
    let server_result = server.on_config(&client.config_message(config), peer_of_server).unwrap();
    let client_result = client.on_config_ack(&Message::ConfigAck, hello_of(&ack), config).unwrap();

    assert!(client_result.config.compression_enabled);
    assert!(server_result.config.compression_enabled);
    assert!(client_result.agreed_capabilities.has_compression());
    assert!(server_result.agreed_capabilities.has_compression());
    assert_eq!(client_result.peer_device_id, [2u8; 16]);
    assert_eq!(server_result.peer_device_id, [1u8; 16]);
    assert_eq!(client_result.peer_fingerprint, [0xBB; 32]);
    assert_eq!(peer_of_client.cert_fingerprint, [0xBB; 32]);
}

#[test]
fn capability_negotiation_refuses_unshared_compression() {
    let client = HandshakeClient::new([1u8; 16], Capabilities::new().with_compression(), [0; 32]);
    let server = HandshakeServer::new([2u8; 16], Capabilities::new().with_resume(), [0; 32]);
    let peer = server.on_hello(&client.hello(), Some([0; 32])).unwrap();
    let err = server.on_config(&client.config_message(ConfigMessage::default()), peer).unwrap_err();
    assert!(matches!(err, Error::UnsupportedCapability(_)));
    let mut no_compression = ConfigMessage::default();
    no_compression.compression_enabled = false;
    let ok = server.on_config(&Message::Config(no_compression), peer).unwrap();
    assert_eq!(ok.agreed_capabilities.bits, 0);
}

#[test]
fn versions_and_unexpected_messages() {
    let client = HandshakeClient::new([1u8; 16], Capabilities::all(), [0; 32]);
    let server = HandshakeServer::new([2u8; 16], Capabilities::all(), [0; 32]);
    let mut old = hello_of(&client.hello());
    old.protocol_version = 1;
    assert!(matches!(server.on_hello(&Message::Hello(old), Some([0; 32])), Err(Error::VersionMismatch { peer: 1, ours: 2 })));
    assert!(matches!(client.on_hello_ack(&Message::HelloAck(old), Some([0; 32])), Err(Error::VersionMismatch { peer: 1, ours: 2 })));
    let mut future = hello_of(&client.hello());
    future.protocol_version = 3;
    future.min_version = 2;
    assert!(server.on_hello(&Message::Hello(future), Some([0; 32])).is_ok());
    assert!(client.on_hello_ack(&Message::HelloAck(future), Some([0; 32])).is_err());
    assert!(matches!(server.on_hello(&Message::Ping, None), Err(Error::Protocol(_))));
    let rejected = Message::Error(ErrorMessage { code: ErrorCode::ProtocolError, message: "no".to_string() });
    assert!(matches!(client.on_hello_ack(&rejected, None), Err(Error::Protocol(_))));
    assert!(matches!(client.on_transfer_reply(&rejected), Err(Error::Protocol(_))));
    assert!(client.on_transfer_reply(&Message::Ready).is_ok());
    assert!(matches!(server.on_transfer_info(Message::Ready), Err(Error::Protocol(_))));
}

#[test]
fn test_capability_negotiation() {
    let client = HandshakeClient::new([3u8; 16], Capabilities::all(), [0x11; 32]);
    let server = HandshakeServer::new([4u8; 16], Capabilities::new().with_compression(), [0x22; 32]);

    let hello = client.hello();
    let peer_of_server = server.on_hello(&hello, Some([0x11; 32])).unwrap();
    let ack = server.hello_ack();
    let peer_of_client = client.on_hello_ack(&ack, Some([0x22; 32])).unwrap();

    let config = ConfigMessage::default();
    let server_result = server.on_config(&client.config_message(config), peer_of_server).unwrap();
    let client_result = client.on_config_ack(&Message::ConfigAck, peer_of_client, config).unwrap();

    assert!(client_result.agreed_capabilities.has_compression());
    assert!(!client_result.agreed_capabilities.has_resume());
    assert!(server_result.agreed_capabilities.has_compression());
    assert!(!server_result.agreed_capabilities.has_resume());
}

#[test]
fn a_claimed_fingerprint_must_be_the_observed_one() {
    assert!(cross_check_fingerprint(&[7; 32], Some([7; 32])).is_ok());
    assert!(matches!(cross_check_fingerprint(&[7; 32], Some([8; 32])), Err(Error::FingerprintMismatch)));
    assert!(matches!(cross_check_fingerprint(&[7; 32], None), Err(Error::FingerprintMismatch)));
    let client = HandshakeClient::new([1u8; 16], Capabilities::all(), [0xAA; 32]);
    let server = HandshakeServer::new([2u8; 16], Capabilities::all(), [0xBB; 32]);
    assert!(matches!(server.on_hello(&client.hello(), Some([0xCC; 32])), Err(Error::FingerprintMismatch)));
    assert!(matches!(server.on_hello(&client.hello(), None), Err(Error::FingerprintMismatch)));
    assert!(matches!(client.on_hello_ack(&server.hello_ack(), Some([0xAA; 32])), Err(Error::FingerprintMismatch)));
}
