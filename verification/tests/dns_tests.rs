use net_profiler::DNS;

#[test]
fn quad9_pair() {
    assert_eq!(
        DNS::Quad9.addresses(),
        Some(("9.9.9.9".to_string(), "149.112.112.112".to_string()))
    );
}

#[test]
fn automatic_resolves_to_nothing() {
    assert_eq!(DNS::Dhcp.addresses(), None);
    assert_eq!(DNS::Dhcp.primary(), None);
    assert_eq!(DNS::Dhcp.secondary(), None);
}

#[test]
fn provider_pairs() {
    assert_eq!(
        DNS::Google.addresses(),
        Some(("8.8.8.8".to_string(), "8.8.4.4".to_string()))
    );
    assert_eq!(
        DNS::Cloudflare.addresses(),
        Some(("1.1.1.2".to_string(), "1.0.0.2".to_string()))
    );
    assert_eq!(
        DNS::OpenDNS.addresses(),
        Some(("208.67.222.222".to_string(), "208.67.220.220".to_string()))
    );
}

#[test]
fn projections_match_pairs() {
    assert_eq!(DNS::Quad9.primary(), Some("9.9.9.9".to_string()));
    assert_eq!(DNS::Quad9.secondary(), Some("149.112.112.112".to_string()));
    assert_eq!(DNS::OpenDNS.primary(), Some("208.67.222.222".to_string()));
    assert_eq!(DNS::OpenDNS.secondary(), Some("208.67.220.220".to_string()));
}

#[test]
fn custom_pair_taken_verbatim() {
    let dns = DNS::Custom {
        primary: "10.1.1.1".to_string(),
        secondary: "10.1.1.2".to_string(),
    };
    assert_eq!(
        dns.addresses(),
        Some(("10.1.1.1".to_string(), "10.1.1.2".to_string()))
    );
    assert_eq!(dns.primary(), Some("10.1.1.1".to_string()));
    assert_eq!(dns.secondary(), Some("10.1.1.2".to_string()));
}

#[test]
fn default_is_automatic() {
    assert_eq!(DNS::default(), DNS::Dhcp);
}
