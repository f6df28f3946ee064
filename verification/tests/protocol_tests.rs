use p2p_transfer::protocol::{ids_equal, Capabilities, ConfigMessage};

#[test]
fn test_capabilities() {
    let caps = Capabilities::new().with_compression().with_resume();
    assert!(caps.has_compression());
    assert!(caps.has_resume());
    assert!(!caps.has_batch_transfer());

    let all = Capabilities::all();
    assert!(all.has_compression());
    assert!(all.has_resume());
    assert!(all.has_batch_transfer());
    assert!(all.has_folder_transfer());
}

#[test]
fn test_capabilities_intersect() {
    let caps1 = Capabilities::new().with_compression().with_resume();
    let caps2 = Capabilities::new().with_resume().with_batch_transfer();
    let common = caps1.intersect(&caps2);
    assert!(!common.has_compression());
    assert!(common.has_resume());
    assert!(!common.has_batch_transfer());
}

#[test]
fn capability_bits_and_intersection_order() {
    assert_eq!(Capabilities::all().bits, 15);
    assert_eq!(Capabilities::new().bits, 0);
    let a = Capabilities::new().with_compression().with_folder_transfer();
    let b = Capabilities::all();
    assert_eq!(a.intersect(&b).bits, b.intersect(&a).bits);
    assert_eq!(a.intersect(&b).bits, 9);
    assert!(!Capabilities::new().has_folder_transfer());
}

#[test]
fn config_message_defaults() {
    let c = ConfigMessage::default();
    assert!(c.compression_enabled);
    assert_eq!(c.compression_level, 3);
    assert!(c.adaptive_compression);
    assert_eq!(c.chunk_size, 65536);
    assert_eq!(c.bandwidth_limit, 0);
}

#[test]
fn identifier_equality() {
    assert!(ids_equal(&[7u8; 16], &[7u8; 16]));
    let mut other = [7u8; 16];
    other[15] = 8;
    assert!(!ids_equal(&[7u8; 16], &other));
}
