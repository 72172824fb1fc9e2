use net_profiler::check_valid_ipv4;
use net_profiler::parse_ipv4;

#[test]
fn accepts_ordinary_addresses() {
    assert!(check_valid_ipv4("192.168.1.1"));
    assert!(check_valid_ipv4("0.0.0.0"));
    assert!(check_valid_ipv4("255.255.255.255"));
    assert!(check_valid_ipv4("10.0.0.5"));
    assert!(check_valid_ipv4("8.8.8.8"));
}

#[test]
fn rejects_out_of_range_octets() {
    assert!(!check_valid_ipv4("192.168.1.256"));
    assert!(!check_valid_ipv4("300.1.1.1"));
    assert!(!check_valid_ipv4("1.1.1.999"));
}

#[test]
fn rejects_non_numeric_text() {
    assert!(!check_valid_ipv4("not.an.ip"));
    assert!(!check_valid_ipv4(""));
    assert!(!check_valid_ipv4("banana"));
    assert!(!check_valid_ipv4("1.2.3.x"));
}

#[test]
fn rejects_wrong_shape() {
    assert!(!check_valid_ipv4("1.2.3"));
    assert!(!check_valid_ipv4("1.2.3.4.5"));
    assert!(!check_valid_ipv4("1..2.3"));
    assert!(!check_valid_ipv4(".1.2.3"));
    assert!(!check_valid_ipv4("1.2.3."));
    assert!(!check_valid_ipv4("1.2.3.4 "));
    assert!(!check_valid_ipv4(" 1.2.3.4"));
}

#[test]
fn rejects_leading_zeros() {
    assert!(!check_valid_ipv4("010.0.0.1"));
    assert!(!check_valid_ipv4("1.2.3.04"));
    assert!(check_valid_ipv4("10.20.30.40"));
}

#[test]
fn rejects_signs_and_unicode() {
    assert!(!check_valid_ipv4("+1.2.3.4"));
    assert!(!check_valid_ipv4("1.2.3.-4"));
    assert!(!check_valid_ipv4("１.2.3.4"));
}

#[test]
fn parses_octet_values() {
    assert_eq!(parse_ipv4("192.168.1.1"), Some((192, 168, 1, 1)));
    assert_eq!(parse_ipv4("0.0.0.0"), Some((0, 0, 0, 0)));
    assert_eq!(parse_ipv4("255.254.252.248"), Some((255, 254, 252, 248)));
    assert_eq!(parse_ipv4("256.0.0.0"), None);
}
