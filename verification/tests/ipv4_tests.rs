use hickory_bunker::ipv4::parse_ipv4;

#[test]
fn parses_dotted_quads() {
    assert_eq!(parse_ipv4("192.168.1.1"), Some([192, 168, 1, 1]));
    assert_eq!(parse_ipv4("0.0.0.0"), Some([0, 0, 0, 0]));
    assert_eq!(parse_ipv4("255.255.255.255"), Some([255, 255, 255, 255]));
    assert_eq!(parse_ipv4("10.0.20.3"), Some([10, 0, 20, 3]));
}

#[test]
fn rejects_malformed_addresses() {
    let bad = [
        "", "1.2.3", "1.2.3.4.5", "1.2.3.4.", ".1.2.3", "1..2.3", "256.1.1.1", "01.2.3.4",
        "1.2.3.04", "1.2.3.a", "1.2.3.-4", "+1.2.3.4", "1.2.3.4 ", " 1.2.3.4", "1000.1.1.1",
        "0x1.2.3.4", "1.2.3.٤",
    ];
    for b in bad.iter() {
        assert_eq!(parse_ipv4(b), None, "case {:?}", b);
    }
}
