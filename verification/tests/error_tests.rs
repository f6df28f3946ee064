use p2p_transfer::error::{protocol_error, Error};

#[test]
fn recoverable_errors_are_network_timeout_disconnect_and_transport() {
    assert!(Error::Network("reset".to_string()).is_recoverable());
    assert!(Error::Timeout.is_recoverable());
    assert!(Error::Disconnected.is_recoverable());
    assert!(Error::Quic("connection lost".to_string()).is_recoverable());
    assert!(!Error::InvalidChunk("bad".to_string()).is_recoverable());
    assert!(!Error::Protocol("x".to_string()).is_recoverable());
    assert!(!Error::Cancelled.is_recoverable());
}

#[test]
fn retried_errors_are_network_timeout_and_invalid_chunk() {
    assert!(Error::Network("reset".to_string()).should_retry());
    assert!(Error::Timeout.should_retry());
    assert!(Error::InvalidChunk("bad".to_string()).should_retry());
    assert!(!Error::Disconnected.should_retry());
    assert!(!Error::Verification("mismatch".to_string()).should_retry());
}

#[test]
fn protocol_error_carries_its_message() {
    match protocol_error("Expected Hello") {
        Error::Protocol(m) => assert_eq!(m, "Expected Hello"),
        other => panic!("unexpected {:?}", other),
    }
}
