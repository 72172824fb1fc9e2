use net_profiler::remove_items_by_indices;
use net_profiler::NetworkProfile;
use net_profiler::DNS;
use net_profiler::IP;

#[test]
fn removes_listed_positions_in_order() {
    let mut v = vec!["a", "b", "c", "d", "e"];
    remove_items_by_indices(&mut v, vec![1, 3]);
    assert_eq!(v, vec!["a", "c", "e"]);
}

#[test]
fn removes_nothing_for_empty_index_list() {
    let mut v = vec![10, 20, 30];
    remove_items_by_indices(&mut v, vec![]);
    assert_eq!(v, vec![10, 20, 30]);
}

#[test]
fn removes_everything_when_all_positions_listed() {
    let mut v = vec![1, 2, 3];
    remove_items_by_indices(&mut v, vec![0, 1, 2]);
    assert!(v.is_empty());
}

#[test]
fn removes_first_and_last() {
    let mut v = vec![IP { address: "10.0.0.1".to_string(), subnet: "/24".to_string() },
                     IP { address: "10.0.0.2".to_string(), subnet: "/24".to_string() },
                     IP { address: "10.0.0.3".to_string(), subnet: "/24".to_string() }];
    remove_items_by_indices(&mut v, vec![0, 2]);
    assert_eq!(v.len(), 1);
    assert_eq!(v[0].address, "10.0.0.2");
}

#[test]
fn default_profile_is_empty_with_automatic_dns() {
    let p = NetworkProfile::default();
    assert_eq!(p.name, "");
    assert!(p.ips.is_empty());
    assert!(p.gateways.is_empty());
    assert_eq!(p.dns, DNS::Dhcp);
    assert!(p.mac.is_none());
}

#[test]
fn default_ip_entry_is_empty() {
    let ip = IP::default();
    assert_eq!(ip.address, "");
    assert_eq!(ip.subnet, "");
}
