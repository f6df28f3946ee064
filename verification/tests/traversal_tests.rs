use p2p_transfer::error::Error;
use p2p_transfer::rendezvous::is_valid_code;
use p2p_transfer::stun::{IpAddress, SocketAddress};
use p2p_transfer::traversal::{
    classify_nat, default_traversal_stun_servers, generate_code, id_less, punchable_endpoint, we_connect, NatClass,
};

#[test]
fn generated_code_shape() {
    for _ in 0..50 {
        let c = generate_code();
        assert_eq!(c.len(), 6);
        assert!(c.chars().all(|c| c.is_ascii_alphanumeric()));
    }
}

#[test]
fn generated_codes_use_the_unambiguous_alphabet() {
    for _ in 0..50 {
        let c = generate_code();
        assert!(is_valid_code(&c));
        assert!(c.chars().all(|ch| "ABCDEFGHJKMNPQRSTVWXYZ23456789".contains(ch)));
    }
}

#[test]
fn exactly_one_side_dials() {
    let a = [1u8; 16];
    let mut b = [1u8; 16];
    b[15] = 2;
    assert!(we_connect(&a, &b));
    assert!(!we_connect(&b, &a));
    assert!(!we_connect(&a, &a));
    let mut c = [0u8; 16];
    c[0] = 2;
    assert!(id_less(&b, &c));
}

#[test]
fn nat_classes() {
    let a = SocketAddress { ip: IpAddress::V4([1, 2, 3, 4]), port: 10 };
    let b = SocketAddress { ip: IpAddress::V4([1, 2, 3, 4]), port: 11 };
    match classify_nat(a, a) {
        NatClass::Cone { public } => assert_eq!(public, a),
        NatClass::Symmetric => panic!("same endpoint must be cone"),
    }
    assert!(matches!(classify_nat(a, b), NatClass::Symmetric));
    assert_eq!(punchable_endpoint(NatClass::Cone { public: a }).unwrap(), a);
    assert!(matches!(punchable_endpoint(NatClass::Symmetric), Err(Error::HolePunchFailed(_))));
}

#[test]
fn traversal_uses_two_stun_servers() {
    let (first, second) = default_traversal_stun_servers();
    assert_eq!(first, "stun.l.google.com:19302");
    assert_eq!(second, "stun1.l.google.com:19302");
}
