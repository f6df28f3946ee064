use p2p_transfer::stun::{
    IpAddress, NatType, SocketAddress, StunClient, BINDING_REQUEST, BINDING_RESPONSE, MAGIC_COOKIE,
};

#[test]
fn test_build_binding_request() {
    let client = StunClient::new();
    let request = client.build_binding_request();

    assert_eq!(request.len(), 20);

    let msg_type = u16::from_be_bytes([request[0], request[1]]);
    assert_eq!(msg_type, BINDING_REQUEST);

    let cookie = u32::from_be_bytes([request[4], request[5], request[6], request[7]]);
    assert_eq!(cookie, MAGIC_COOKIE);
}

#[test]
fn test_parse_xor_mapped_address() {
    let client = StunClient::new();

    let port = 32853u16;
    let xor_port = port ^ (MAGIC_COOKIE >> 16) as u16;

    let ip = 0xC0000201u32;
    let xor_ip = ip ^ MAGIC_COOKIE;

    let mut data = vec![0u8, 0x01];
    data.extend_from_slice(&xor_port.to_be_bytes());
    data.extend_from_slice(&xor_ip.to_be_bytes());

    let transaction_id = [0u8; 12];
    let result = client.parse_xor_mapped_address(&data, &transaction_id).unwrap();

    assert_eq!(result.port, port);
    assert_eq!(result.ip, IpAddress::V4([192, 0, 2, 1]));
}

#[test]
fn test_nat_type_detection() {
    let client = StunClient::new();

    let local = SocketAddress { ip: IpAddress::V4([192, 168, 1, 100]), port: 5000 };
    let public_nat = SocketAddress { ip: IpAddress::V4([203, 0, 113, 5]), port: 5000 };
    let public_open = SocketAddress { ip: IpAddress::V4([192, 168, 1, 100]), port: 5000 };

    assert_eq!(client.detect_nat_type(&public_open, &local), NatType::Open);
    assert_eq!(client.detect_nat_type(&public_nat, &local), NatType::RestrictedCone);
}

#[test]
fn parses_a_full_binding_response() {
    let client = StunClient::new();
    let local = SocketAddress { ip: IpAddress::V4([10, 0, 0, 2]), port: 4000 };
    let mut msg = vec![];
    msg.extend_from_slice(&BINDING_RESPONSE.to_be_bytes());
    msg.extend_from_slice(&12u16.to_be_bytes());
    msg.extend_from_slice(&MAGIC_COOKIE.to_be_bytes());
    msg.extend_from_slice(&[9u8; 12]);
    // XOR-MAPPED-ADDRESS, 8 bytes: 198.51.100.7:6000
    msg.extend_from_slice(&0x0020u16.to_be_bytes());
    msg.extend_from_slice(&8u16.to_be_bytes());
    msg.push(0);
    msg.push(1);
    msg.extend_from_slice(&(6000u16 ^ 0x2112).to_be_bytes());
    msg.extend_from_slice(&(0xC6336407u32 ^ MAGIC_COOKIE).to_be_bytes());
    let endpoint = client.parse_binding_response(&msg, &local).unwrap();
    assert_eq!(endpoint.ip, IpAddress::V4([198, 51, 100, 7]));
    assert_eq!(endpoint.port, 6000);
    assert_eq!(endpoint.nat_type, NatType::RestrictedCone);
}

#[test]
fn short_or_wrong_responses_are_refused() {
    let client = StunClient::new();
    let local = SocketAddress { ip: IpAddress::V4([10, 0, 0, 2]), port: 4000 };
    assert!(client.parse_binding_response(&[0u8; 10], &local).is_err());
    let mut msg = vec![0u8; 20];
    msg[0] = 0x00;
    msg[1] = 0x01;
    assert!(client.parse_binding_response(&msg, &local).is_err());
    assert!(client.parse_mapped_address(&[0u8; 3]).is_err());
}

#[test]
fn stun_client_settings() {
    let c = StunClient::new();
    assert_eq!(c.stun_servers.len(), 5);
    assert_eq!(c.timeout_ms, 3000);
    let d = StunClient::with_servers(vec!["a:1".to_string()]).with_timeout(50);
    assert_eq!(d.stun_servers, vec!["a:1".to_string()]);
    assert_eq!(d.timeout_ms, 50);
}

#[test]
fn default_client_is_the_new_client() {
    let a = p2p_transfer::stun::StunClient::default();
    let b = p2p_transfer::stun::StunClient::new();
    assert_eq!(a.stun_servers, b.stun_servers);
    assert_eq!(a.timeout_ms, b.timeout_ms);
}
