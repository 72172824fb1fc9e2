use net_profiler::check_valid_subnet;
use net_profiler::cidr_to_dotted_decimal;
use net_profiler::decimal_string;
use net_profiler::dotted_decimal_to_cidr;
use net_profiler::normalize_subnet_for_os;
use net_profiler::ErrorDetail;
use net_profiler::Platform;

#[test]
fn accepts_contiguous_dotted_masks() {
    assert!(check_valid_subnet("255.255.255.0"));
    assert!(check_valid_subnet("255.255.255.255"));
    assert!(check_valid_subnet("255.255.254.0"));
    assert!(check_valid_subnet("255.0.0.0"));
    assert!(check_valid_subnet("128.0.0.0"));
    assert!(check_valid_subnet("0.0.0.0"));
}

#[test]
fn rejects_masks_with_gaps() {
    assert!(!check_valid_subnet("255.255.0.255"));
    assert!(!check_valid_subnet("0.255.255.255"));
    assert!(!check_valid_subnet("255.255.255.1"));
    assert!(!check_valid_subnet("1.2.3.4"));
}

#[test]
fn accepts_cidr_prefixes() {
    assert!(check_valid_subnet("/0"));
    assert!(check_valid_subnet("/24"));
    assert!(check_valid_subnet("/32"));
}

#[test]
fn rejects_bad_cidr_prefixes() {
    assert!(!check_valid_subnet("/33"));
    assert!(!check_valid_subnet("/"));
    assert!(!check_valid_subnet("/a"));
    assert!(!check_valid_subnet("/2 4"));
    assert!(!check_valid_subnet("24"));
    assert!(!check_valid_subnet(""));
}

#[test]
fn cidr_to_dotted_known_values() {
    assert_eq!(cidr_to_dotted_decimal("/24").unwrap(), "255.255.255.0");
    assert_eq!(cidr_to_dotted_decimal("/0").unwrap(), "0.0.0.0");
    assert_eq!(cidr_to_dotted_decimal("/32").unwrap(), "255.255.255.255");
    assert_eq!(cidr_to_dotted_decimal("/1").unwrap(), "128.0.0.0");
    assert_eq!(cidr_to_dotted_decimal("/23").unwrap(), "255.255.254.0");
    assert_eq!(cidr_to_dotted_decimal("/31").unwrap(), "255.255.255.254");
}

#[test]
fn cidr_to_dotted_rejects_bad_input() {
    match cidr_to_dotted_decimal("/33") {
        Err(ErrorDetail::InvalidSubnet { input }) => assert_eq!(input, "/33"),
        other => panic!("expected InvalidSubnet, got {:?}", other),
    }
    assert!(cidr_to_dotted_decimal("24").is_err());
    assert!(cidr_to_dotted_decimal("255.255.255.0").is_err());
    assert!(cidr_to_dotted_decimal("/").is_err());
}

#[test]
fn dotted_to_cidr_known_values() {
    assert_eq!(dotted_decimal_to_cidr("255.255.255.0").unwrap(), "/24");
    assert_eq!(dotted_decimal_to_cidr("0.0.0.0").unwrap(), "/0");
    assert_eq!(dotted_decimal_to_cidr("255.255.255.255").unwrap(), "/32");
    assert_eq!(dotted_decimal_to_cidr("128.0.0.0").unwrap(), "/1");
}

#[test]
fn dotted_to_cidr_rejects_gapped_masks() {
    match dotted_decimal_to_cidr("255.255.0.255") {
        Err(ErrorDetail::InvalidSubnet { input }) => assert_eq!(input, "255.255.0.255"),
        other => panic!("expected InvalidSubnet, got {:?}", other),
    }
    assert!(dotted_decimal_to_cidr("not.a.mask.x").is_err());
}

#[test]
fn round_trip_over_all_prefix_lengths() {
    for n in 0..=32u32 {
        let cidr = format!("/{}", n);
        let dotted = cidr_to_dotted_decimal(&cidr).unwrap();
        assert_eq!(dotted_decimal_to_cidr(&dotted).unwrap(), cidr);
        assert_eq!(cidr_to_dotted_decimal(&dotted_decimal_to_cidr(&dotted).unwrap()).unwrap(), dotted);
    }
}

#[test]
fn cidr_digits_may_carry_leading_zeros() {
    // The prefix after the slash is read as a plain digit string.
    assert!(check_valid_subnet("/024"));
    assert_eq!(cidr_to_dotted_decimal("/024").unwrap(), "255.255.255.0");
    // The rendered CIDR form is always canonical.
    assert_eq!(dotted_decimal_to_cidr("255.255.255.0").unwrap(), "/24");
}

#[test]
fn normalize_for_windows() {
    let r = normalize_subnet_for_os("/24", Platform::Windows).unwrap();
    assert_eq!(r, "255.255.255.0");
    let r = normalize_subnet_for_os("255.255.0.0", Platform::Windows).unwrap();
    assert_eq!(r, "255.255.0.0");
    // Anything not in CIDR shape passes through untouched on Windows.
    let r = normalize_subnet_for_os("banana", Platform::Windows).unwrap();
    assert_eq!(r, "banana");
    assert!(normalize_subnet_for_os("/40", Platform::Windows).is_err());
}

#[test]
fn normalize_for_linux() {
    let r = normalize_subnet_for_os("255.255.255.0", Platform::Linux).unwrap();
    assert_eq!(r, "/24");
    let r = normalize_subnet_for_os("/16", Platform::Linux).unwrap();
    assert_eq!(r, "/16");
    match normalize_subnet_for_os("255.255.0.255", Platform::Linux) {
        Err(ErrorDetail::InvalidSubnet { input }) => assert_eq!(input, "255.255.0.255"),
        other => panic!("expected InvalidSubnet, got {:?}", other),
    }
}

#[test]
fn decimal_rendering() {
    assert_eq!(decimal_string(0), "0");
    assert_eq!(decimal_string(7), "7");
    assert_eq!(decimal_string(10), "10");
    assert_eq!(decimal_string(255), "255");
    assert_eq!(decimal_string(1234), "1234");
}
