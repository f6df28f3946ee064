use p2p_transfer::text::{decimal_text, parse_u16};

#[test]
fn decimal_ports() {
    assert_eq!(parse_u16("14567"), Some(14567));
    assert_eq!(parse_u16("+80"), Some(80));
    assert_eq!(parse_u16("0"), Some(0));
    assert_eq!(parse_u16("00065535"), Some(65535));
    assert_eq!(parse_u16("65536"), None);
    assert_eq!(parse_u16("999999999999"), None);
    assert_eq!(parse_u16(""), None);
    assert_eq!(parse_u16("+"), None);
    assert_eq!(parse_u16("-1"), None);
    assert_eq!(parse_u16(" 80"), None);
    assert_eq!(parse_u16("8o"), None);
    for s in ["1", "+7", "65535", "x", "", "70000", "+-1"] {
        assert_eq!(parse_u16(s), s.parse::<u16>().ok(), "{s}");
    }
}

#[test]
fn decimal_output() {
    assert_eq!(decimal_text(0), "0");
    assert_eq!(decimal_text(7), "7");
    assert_eq!(decimal_text(14567), "14567");
    assert_eq!(decimal_text(u64::MAX), u64::MAX.to_string());
}
