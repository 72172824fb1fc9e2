use net_profiler::load_profile;
use net_profiler::resolve_adapter;
use net_profiler::run_plan;
use net_profiler::step_result;
use net_profiler::ErrorDetail;
use net_profiler::ExecOutcome;
use net_profiler::NetworkProfile;
use net_profiler::Platform;
use net_profiler::Step;
use net_profiler::DNS;
use net_profiler::IP;

fn profile(ips: Vec<(&str, &str)>, gateways: Vec<&str>, dns: DNS) -> NetworkProfile {
    let mut p = NetworkProfile::default();
    p.name = "test".to_string();
    for (address, subnet) in ips {
        p.ips.push(IP { address: address.to_string(), subnet: subnet.to_string() });
    }
    for g in gateways {
        p.gateways.push(g.to_string());
    }
    p.dns = dns;
    p
}

fn args_of(step: &Step) -> Vec<&str> {
    step.cmd.args.iter().map(|a| a.as_str()).collect()
}

fn all_success(plan: &[Step]) -> Vec<ExecOutcome> {
    plan.iter().map(|_| ExecOutcome::Success).collect()
}

#[test]
fn single_ip_no_gateway_automatic_dns_windows() {
    let p = profile(vec![("10.0.0.5", "/24")], vec![], DNS::Dhcp);
    let plan = load_profile(&p, "eth0", Platform::Windows).unwrap();
    // Exactly one primary-address command, no additive address commands, no
    // gateway commands, one restore-automatic-DNS command.
    assert_eq!(plan.len(), 2);
    assert_eq!(plan[0].cmd.program, "netsh");
    assert_eq!(
        args_of(&plan[0]),
        vec!["interface", "ip", "set", "address", "eth0", "static", "10.0.0.5", "255.255.255.0", "none"]
    );
    assert!(plan[0].fatal);
    assert_eq!(plan[1].cmd.program, "powershell");
    assert_eq!(
        args_of(&plan[1]),
        vec!["-Command", "netsh interface ip set dnsservers \"eth0\" source=dhcp"]
    );
    let outcomes = all_success(&plan);
    let (issued, error) = run_plan(&plan, &outcomes);
    assert_eq!(issued, 2);
    assert!(error.is_none());
}

#[test]
fn single_ip_no_gateway_automatic_dns_linux() {
    let p = profile(vec![("10.0.0.5", "/24")], vec![], DNS::Dhcp);
    let plan = load_profile(&p, "eth0", Platform::Linux).unwrap();
    // The primary operation is a flush then an add; no route command because
    // the profile names no gateway; then the restore-automatic-DNS command.
    assert_eq!(plan.len(), 3);
    assert_eq!(plan[0].cmd.program, "ip");
    assert_eq!(args_of(&plan[0]), vec!["addr", "flush", "dev", "eth0"]);
    assert_eq!(args_of(&plan[1]), vec!["addr", "add", "10.0.0.5/24", "dev", "eth0"]);
    assert_eq!(plan[2].cmd.program, "nmcli");
    assert_eq!(
        args_of(&plan[2]),
        vec!["con", "modify", "eth0", "ipv4.dns", "", "ipv4.ignore-auto-dns", "no"]
    );
    let outcomes = all_success(&plan);
    let (issued, error) = run_plan(&plan, &outcomes);
    assert_eq!(issued, 3);
    assert!(error.is_none());
}

#[test]
fn additive_failure_stops_before_later_entries() {
    let p = profile(
        vec![
            ("10.0.0.1", "255.255.255.0"),
            ("10.0.0.2", "255.255.255.0"),
            ("10.0.0.3", "255.255.255.0"),
        ],
        vec![],
        DNS::Dhcp,
    );
    let plan = load_profile(&p, "eth0", Platform::Windows).unwrap();
    // Primary for A, additive for B, additive for C, DNS.
    assert_eq!(plan.len(), 4);
    assert!(args_of(&plan[0]).contains(&"10.0.0.1"));
    assert!(args_of(&plan[1]).contains(&"10.0.0.2"));
    assert!(args_of(&plan[2]).contains(&"10.0.0.3"));
    let outcomes = vec![
        ExecOutcome::Success,
        ExecOutcome::Failed { diagnostic: "no such interface".to_string() },
        ExecOutcome::Success,
        ExecOutcome::Success,
    ];
    let (issued, error) = run_plan(&plan, &outcomes);
    // A's command was issued, B's was attempted, C's never ran, and the
    // diagnostic captured from B comes back.
    assert_eq!(issued, 2);
    assert_eq!(
        error,
        Some(ErrorDetail::CommandFailed { diagnostic: "no such interface".to_string() })
    );
}

#[test]
fn secondary_gateways_get_increasing_metrics() {
    let p = profile(
        vec![("10.0.0.5", "/24")],
        vec!["192.168.1.1", "192.168.1.2", "192.168.1.3"],
        DNS::Dhcp,
    );
    let plan = load_profile(&p, "eth0", Platform::Windows).unwrap();
    // Primary carries the first gateway; the two further gateways get
    // metrics 1 and 2, in that order.
    assert_eq!(plan.len(), 4);
    assert_eq!(
        args_of(&plan[0]),
        vec!["interface", "ip", "set", "address", "eth0", "static", "10.0.0.5", "255.255.255.0", "192.168.1.1"]
    );
    assert_eq!(
        args_of(&plan[1]),
        vec!["interface", "ip", "add", "route", "0.0.0.0/0", "192.168.1.2", "eth0", "metric", "1"]
    );
    assert_eq!(
        args_of(&plan[2]),
        vec!["interface", "ip", "add", "route", "0.0.0.0/0", "192.168.1.3", "eth0", "metric", "2"]
    );
}

#[test]
fn secondary_gateways_linux() {
    let p = profile(
        vec![("10.0.0.5", "/24")],
        vec!["192.168.1.1", "192.168.1.2"],
        DNS::Dhcp,
    );
    let plan = load_profile(&p, "wlan0", Platform::Linux).unwrap();
    // flush, add, tolerated route for the first gateway, one metric-1 route,
    // DNS restore.
    assert_eq!(plan.len(), 5);
    assert_eq!(
        args_of(&plan[2]),
        vec!["route", "add", "default", "via", "192.168.1.1", "dev", "wlan0"]
    );
    assert!(!plan[2].fatal);
    assert_eq!(
        args_of(&plan[3]),
        vec!["route", "add", "default", "via", "192.168.1.2", "dev", "wlan0", "metric", "1"]
    );
    assert!(plan[3].fatal);
}

#[test]
fn tolerated_route_failure_does_not_abort() {
    let p = profile(vec![("10.0.0.5", "/24")], vec!["192.168.1.1"], DNS::Dhcp);
    let plan = load_profile(&p, "eth1", Platform::Linux).unwrap();
    // flush, add, tolerated route, DNS.
    assert_eq!(plan.len(), 4);
    let outcomes = vec![
        ExecOutcome::Success,
        ExecOutcome::Success,
        ExecOutcome::Failed { diagnostic: "route exists".to_string() },
        ExecOutcome::Success,
    ];
    let (issued, error) = run_plan(&plan, &outcomes);
    assert_eq!(issued, 4);
    assert!(error.is_none());
}

#[test]
fn static_dns_windows_command_line() {
    let p = profile(vec![], vec![], DNS::Quad9);
    let plan = load_profile(&p, "Ethernet 2", Platform::Windows).unwrap();
    assert_eq!(plan.len(), 1);
    assert_eq!(plan[0].cmd.program, "powershell");
    assert_eq!(
        args_of(&plan[0]),
        vec![
            "-Command",
            "netsh interface ip set dns \"Ethernet 2\" static 9.9.9.9 primary validate=no; \
             netsh interface ip add dns \"Ethernet 2\" 149.112.112.112 validate=no"
        ]
    );
}

#[test]
fn static_dns_linux_command_line() {
    let p = profile(
        vec![],
        vec![],
        DNS::Custom { primary: "10.9.9.9".to_string(), secondary: "10.8.8.8".to_string() },
    );
    let plan = load_profile(&p, "eth0", Platform::Linux).unwrap();
    assert_eq!(plan.len(), 1);
    assert_eq!(plan[0].cmd.program, "nmcli");
    assert_eq!(
        args_of(&plan[0]),
        vec!["con", "modify", "eth0", "ipv4.dns", "10.9.9.9,10.8.8.8", "ipv4.ignore-auto-dns", "yes"]
    );
}

#[test]
fn empty_profile_still_applies_dns() {
    let p = profile(vec![], vec![], DNS::Dhcp);
    let plan = load_profile(&p, "eth0", Platform::Linux).unwrap();
    assert_eq!(plan.len(), 1);
    assert_eq!(plan[0].cmd.program, "nmcli");
}

#[test]
fn bad_subnet_fails_planning_with_the_offending_input() {
    let p = profile(
        vec![("10.0.0.1", "255.255.255.0"), ("10.0.0.2", "255.255.0.255")],
        vec![],
        DNS::Dhcp,
    );
    match load_profile(&p, "eth0", Platform::Linux) {
        Err(ErrorDetail::InvalidSubnet { input }) => assert_eq!(input, "255.255.0.255"),
        other => panic!("expected InvalidSubnet, got {:?}", other),
    }
}

#[test]
fn planning_is_repeatable() {
    let p = profile(
        vec![("10.0.0.5", "/24"), ("10.0.0.6", "/24")],
        vec!["192.168.1.1", "192.168.1.2"],
        DNS::Google,
    );
    for platform in [Platform::Windows, Platform::Linux] {
        let first = load_profile(&p, "eth0", platform).unwrap();
        let second = load_profile(&p, "eth0", platform).unwrap();
        assert_eq!(first, second);
    }
}

#[test]
fn spawn_failure_aborts_with_cause() {
    let p = profile(vec![("10.0.0.5", "/24")], vec![], DNS::Dhcp);
    let plan = load_profile(&p, "eth0", Platform::Windows).unwrap();
    let outcomes = vec![
        ExecOutcome::SpawnFailed { cause: "netsh not found".to_string() },
        ExecOutcome::Success,
    ];
    let (issued, error) = run_plan(&plan, &outcomes);
    assert_eq!(issued, 1);
    assert_eq!(error, Some(ErrorDetail::SpawnFailed { cause: "netsh not found".to_string() }));
}

#[test]
fn step_decisions() {
    assert_eq!(step_result(true, &ExecOutcome::Success), None);
    assert_eq!(step_result(false, &ExecOutcome::Failed { diagnostic: "d".to_string() }), None);
    assert_eq!(
        step_result(true, &ExecOutcome::Failed { diagnostic: "d".to_string() }),
        Some(ErrorDetail::CommandFailed { diagnostic: "d".to_string() })
    );
    assert_eq!(
        step_result(true, &ExecOutcome::SpawnFailed { cause: "c".to_string() }),
        Some(ErrorDetail::SpawnFailed { cause: "c".to_string() })
    );
}

#[test]
fn adapter_must_be_selected() {
    assert_eq!(resolve_adapter(Some("eth0".to_string())), Ok("eth0".to_string()));
    assert_eq!(resolve_adapter(None), Err(ErrorDetail::NoInterfaceSelected));
}

#[test]
fn error_messages() {
    assert_eq!(
        ErrorDetail::InvalidSubnet { input: "/40".to_string() }.message(),
        "invalid subnet: /40"
    );
    assert_eq!(
        ErrorDetail::CommandFailed { diagnostic: "denied".to_string() }.message(),
        "command failed: denied"
    );
    assert_eq!(
        ErrorDetail::SpawnFailed { cause: "missing tool".to_string() }.message(),
        "command could not be started: missing tool"
    );
    assert_eq!(ErrorDetail::NoInterfaceSelected.message(), "no interface selected");
}
