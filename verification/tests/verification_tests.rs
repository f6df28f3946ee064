use p2p_transfer::error::Error;
use p2p_transfer::verification::{certificate_matches, crc32, digest_eq, fingerprint_of, sha256, verify_crc32, verify_sha256};

#[test]
fn test_crc32() {
    let data = b"Hello, World!";
    let checksum = crc32(data);
    assert!(verify_crc32(data, checksum).is_ok());
    assert!(verify_crc32(data, checksum + 1).is_err());
}

#[test]
fn test_sha256() {
    let data = b"Hello, World!";
    let checksum = sha256(data);
    assert!(verify_sha256(data, &checksum).is_ok());

    let mut wrong = checksum;
    wrong[0] ^= 1;
    assert!(verify_sha256(data, &wrong).is_err());
}

#[test]
fn known_checksum_values() {
    assert_eq!(crc32(b"123456789"), 0xCBF4_3926);
    let d = sha256(b"abc");
    assert_eq!(d[0], 0xba);
    assert_eq!(d[1], 0x78);
    assert_eq!(d[31], 0xad);
}

#[test]
fn mismatch_is_a_verification_error() {
    assert!(matches!(verify_crc32(b"x", 0), Err(Error::Verification(_))));
    assert!(matches!(verify_sha256(b"x", &[0u8; 32]), Err(Error::Verification(_))));
}

#[test]
fn certificate_pinning() {
    let cert = b"some certificate bytes";
    let fp = fingerprint_of(cert);
    assert!(certificate_matches(cert, &fp));
    assert!(!certificate_matches(b"another certificate", &fp));
    assert!(digest_eq(&fp, &fp));
}

#[test]
fn fingerprint_verifier_accepts_pinned_cert() {
    let cert = b"a DER-encoded certificate".to_vec();
    let pinned = fingerprint_of(&cert);
    assert!(certificate_matches(&cert, &pinned));
}

#[test]
fn fingerprint_verifier_rejects_other_cert() {
    let cert = b"a DER-encoded certificate".to_vec();
    let other = b"another certificate".to_vec();
    let pinned = fingerprint_of(&cert);
    assert!(!certificate_matches(&other, &pinned));
}
