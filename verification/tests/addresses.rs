use rust_streamer::ip::{is_valid_ipv4, parse_ipv4, Ipv4Host};

fn host(a: u8, b: u8, c: u8, d: u8) -> Ipv4Host {
    Ipv4Host { a, b, c, d }
}

#[test]
fn parses_plain_addresses() {
    assert_eq!(parse_ipv4("0.0.0.0"), Some(host(0, 0, 0, 0)));
    assert_eq!(parse_ipv4("127.0.0.1"), Some(host(127, 0, 0, 1)));
    assert_eq!(parse_ipv4("192.168.1.42"), Some(host(192, 168, 1, 42)));
    assert_eq!(parse_ipv4("255.255.255.255"), Some(host(255, 255, 255, 255)));
    assert_eq!(parse_ipv4("9.10.99.100"), Some(host(9, 10, 99, 100)));
}

#[test]
fn rejects_out_of_range_octets() {
    assert_eq!(parse_ipv4("300.1.1.1"), None);
    assert_eq!(parse_ipv4("256.0.0.1"), None);
    assert_eq!(parse_ipv4("1.1.1.999"), None);
}

#[test]
fn rejects_wrong_shape() {
    assert_eq!(parse_ipv4(""), None);
    assert_eq!(parse_ipv4("1.2.3"), None);
    assert_eq!(parse_ipv4("1.2.3.4.5"), None);
    assert_eq!(parse_ipv4("1..2.3"), None);
    assert_eq!(parse_ipv4(".1.2.3"), None);
    assert_eq!(parse_ipv4("1.2.3."), None);
    assert_eq!(parse_ipv4("a.b.c.d"), None);
    assert_eq!(parse_ipv4("1.2.3.4 "), None);
    assert_eq!(parse_ipv4(" 1.2.3.4"), None);
    assert_eq!(parse_ipv4("1.2.3.-4"), None);
}

#[test]
fn rejects_leading_zeros_and_long_runs() {
    assert_eq!(parse_ipv4("01.2.3.4"), None);
    assert_eq!(parse_ipv4("1.2.3.04"), None);
    assert_eq!(parse_ipv4("00.0.0.0"), None);
    assert_eq!(parse_ipv4("1234.1.1.1"), None);
    assert_eq!(parse_ipv4("1.2.3.0010"), None);
}

#[test]
fn zero_octet_alone_is_fine() {
    assert_eq!(parse_ipv4("0.1.2.3"), Some(host(0, 1, 2, 3)));
    assert_eq!(parse_ipv4("10.0.200.0"), Some(host(10, 0, 200, 0)));
}

#[test]
fn octet_boundaries() {
    assert_eq!(parse_ipv4("0.0.0.255"), Some(host(0, 0, 0, 255)));
    assert_eq!(parse_ipv4("99.100.101.102"), Some(host(99, 100, 101, 102)));
    assert_eq!(parse_ipv4("9.99.999.9"), None);
    assert_eq!(parse_ipv4("255.256.255.255"), None);
}

#[test]
fn validity_test_matches_parser() {
    assert!(is_valid_ipv4("8.8.8.8"));
    assert!(is_valid_ipv4("255.0.255.0"));
    assert!(!is_valid_ipv4("300.1.1.1"));
    assert!(!is_valid_ipv4("8.8.8"));
    assert!(!is_valid_ipv4("not an ip"));
}
