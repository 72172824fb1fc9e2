//! Construction of the platform configuration commands. Each logical
//! operation of the applier (set the primary address, add an address, add a
//! gateway, set DNS) becomes one or more concrete tool invocations; the exact
//! program and argument sequence of every invocation is pinned down here.

use vstd::prelude::*;

use crate::digits::dec_rep;
use crate::digits::decimal_string;
use crate::dns::spec_dns_addresses;
use crate::dns::DNS;
use crate::error::ErrorDetail;
use crate::error::ErrorV;
use crate::platform::Platform;
use crate::subnet::normalize_subnet_for_os;
use crate::subnet::spec_normalize_subnet;

verus! {

/// One external tool invocation: the program to run and its arguments, in
/// order.
#[derive(Debug, Clone, PartialEq, Eq, Hash)]
pub struct CommandSpec {
    pub program: String,
    pub args: Vec<String>,
}

/// The mathematical shape of a [`CommandSpec`].
pub ghost struct CmdV {
    pub program: Seq<char>,
    pub args: Seq<Seq<char>>,
}

impl View for CommandSpec {
    type V = CmdV;

    open spec fn view(&self) -> CmdV {
        CmdV { program: self.program@, args: Seq::new(self.args@.len(), |i: int| self.args@[i]@) }
    }
}

/// One planned step of the apply pipeline: an invocation together with its
/// failure policy. A fatal step's failure aborts the pipeline; a tolerated
/// step's failure is only noted.
#[derive(Debug, Clone, PartialEq, Eq, Hash)]
pub struct Step {
    pub cmd: CommandSpec,
    pub fatal: bool,
}

/// The mathematical shape of a [`Step`].
pub ghost struct StepV {
    pub cmd: CmdV,
    pub fatal: bool,
}

impl View for Step {
    type V = StepV;

    open spec fn view(&self) -> StepV {
        StepV { cmd: self.cmd@, fatal: self.fatal }
    }
}

/// The views of a sequence of steps.
pub open spec fn steps_view(v: Seq<Step>) -> Seq<StepV> {
    Seq::new(v.len(), |i: int| v[i]@)
}

/// The view of an optional borrowed string.
pub open spec fn opt_str_view(g: Option<&str>) -> Option<Seq<char>> {
    match g {
        Some(s) => Some(s@),
        None => None,
    }
}

/// The gateway argument of the primary address command: the gateway itself,
/// or the word `none` when the profile names no gateway.
pub open spec fn spec_gateway_arg(g: Option<Seq<char>>) -> Seq<char> {
    match g {
        Some(s) => s,
        None => "none"@,
    }
}

/// The invocations of the primary address operation. The primary operation
/// replaces the adapter's address configuration, so it is issued at most once
/// and first. On Windows tooling it is a single command carrying the first
/// gateway; on Linux tooling it is a flush followed by an add, and, when a
/// gateway is named, a tolerated default-route command. `None` means the
/// subnet cannot be normalized for the platform.
pub open spec fn spec_set_ip_steps(
    platform: Platform,
    adapter: Seq<char>,
    address: Seq<char>,
    subnet: Seq<char>,
    gateway: Option<Seq<char>>,
) -> Option<Seq<StepV>> {
    match spec_normalize_subnet(subnet, platform) {
        None => None,
        Some(mask) => Some(
            match platform {
                Platform::Windows => seq![
                    StepV {
                        cmd: CmdV {
                            program: "netsh"@,
                            args: seq![
                                "interface"@,
                                "ip"@,
                                "set"@,
                                "address"@,
                                adapter,
                                "static"@,
                                address,
                                mask,
                                spec_gateway_arg(gateway),
                            ],
                        },
                        fatal: true,
                    },
                ],
                Platform::Linux => {
                    let base = seq![
                        StepV {
                            cmd: CmdV {
                                program: "ip"@,
                                args: seq!["addr"@, "flush"@, "dev"@, adapter],
                            },
                            fatal: true,
                        },
                        StepV {
                            cmd: CmdV {
                                program: "ip"@,
                                args: seq!["addr"@, "add"@, address + mask, "dev"@, adapter],
                            },
                            fatal: true,
                        },
                    ];
                    match gateway {
                        None => base,
                        Some(g) => base.push(
                            StepV {
                                cmd: CmdV {
                                    program: "ip"@,
                                    args: seq![
                                        "route"@,
                                        "add"@,
                                        "default"@,
                                        "via"@,
                                        g,
                                        "dev"@,
                                        adapter,
                                    ],
                                },
                                fatal: false,
                            },
                        ),
                    }
                },
            },
        ),
    }
}

/// The invocation of the additive address operation, which layers one more
/// address onto the adapter without disturbing the ones already set. `None`
/// means the subnet cannot be normalized for the platform.
pub open spec fn spec_add_ip_steps(
    platform: Platform,
    adapter: Seq<char>,
    address: Seq<char>,
    subnet: Seq<char>,
) -> Option<Seq<StepV>> {
    match spec_normalize_subnet(subnet, platform) {
        None => None,
        Some(mask) => Some(
            match platform {
                Platform::Windows => seq![
                    StepV {
                        cmd: CmdV {
                            program: "netsh"@,
                            args: seq![
                                "interface"@,
                                "ip"@,
                                "add"@,
                                "address"@,
                                adapter,
                                address,
                                mask,
                            ],
                        },
                        fatal: true,
                    },
                ],
                Platform::Linux => seq![
                    StepV {
                        cmd: CmdV {
                            program: "ip"@,
                            args: seq!["addr"@, "add"@, address + mask, "dev"@, adapter],
                        },
                        fatal: true,
                    },
                ],
            },
        ),
    }
}

/// The invocation that adds one more gateway with the given routing metric;
/// a lower metric wins.
pub open spec fn spec_add_gateway_steps(
    platform: Platform,
    adapter: Seq<char>,
    gateway: Seq<char>,
    metric: nat,
) -> Seq<StepV> {
    match platform {
        Platform::Windows => seq![
            StepV {
                cmd: CmdV {
                    program: "netsh"@,
                    args: seq![
                        "interface"@,
                        "ip"@,
                        "add"@,
                        "route"@,
                        "0.0.0.0/0"@,
                        gateway,
                        adapter,
                        "metric"@,
                        dec_rep(metric),
                    ],
                },
                fatal: true,
            },
        ],
        Platform::Linux => seq![
            StepV {
                cmd: CmdV {
                    program: "ip"@,
                    args: seq![
                        "route"@,
                        "add"@,
                        "default"@,
                        "via"@,
                        gateway,
                        "dev"@,
                        adapter,
                        "metric"@,
                        dec_rep(metric),
                    ],
                },
                fatal: true,
            },
        ],
    }
}

/// The invocation that applies a DNS selection: restore automatic DNS for
/// the automatic selection, otherwise set the resolved server pair.
pub open spec fn spec_set_dns_steps(platform: Platform, adapter: Seq<char>, dns: DNS) -> Seq<
    StepV,
> {
    match platform {
        Platform::Windows => match spec_dns_addresses(dns) {
            None => seq![
                StepV {
                    cmd: CmdV {
                        program: "powershell"@,
                        args: seq![
                            "-Command"@,
                            "netsh interface ip set dnsservers \""@ + adapter
                                + "\" source=dhcp"@,
                        ],
                    },
                    fatal: true,
                },
            ],
            Some(pair) => seq![
                StepV {
                    cmd: CmdV {
                        program: "powershell"@,
                        args: seq![
                            "-Command"@,
                            "netsh interface ip set dns \""@ + adapter + "\" static "@ + pair.0
                                + " primary validate=no; netsh interface ip add dns \""@ + adapter
                                + "\" "@ + pair.1 + " validate=no"@,
                        ],
                    },
                    fatal: true,
                },
            ],
        },
        Platform::Linux => match spec_dns_addresses(dns) {
            None => seq![
                StepV {
                    cmd: CmdV {
                        program: "nmcli"@,
                        args: seq![
                            "con"@,
                            "modify"@,
                            adapter,
                            "ipv4.dns"@,
                            ""@,
                            "ipv4.ignore-auto-dns"@,
                            "no"@,
                        ],
                    },
                    fatal: true,
                },
            ],
            Some(pair) => seq![
                StepV {
                    cmd: CmdV {
                        program: "nmcli"@,
                        args: seq![
                            "con"@,
                            "modify"@,
                            adapter,
                            "ipv4.dns"@,
                            pair.0 + ","@ + pair.1,
                            "ipv4.ignore-auto-dns"@,
                            "yes"@,
                        ],
                    },
                    fatal: true,
                },
            ],
        },
    }
}

/// Builds the primary address operation: the replacing command (or command
/// sequence) that sets `ip_address`/`subnet` on `adapter`, carrying the
/// profile's first gateway if one is named. Fails only when the subnet
/// cannot be normalized for the platform.
pub fn set_ip_addr(
    platform: Platform,
    adapter: &str,
    ip_address: &str,
    subnet: &str,
    gateway: Option<&str>,
) -> (r: Result<Vec<Step>, ErrorDetail>)
    ensures
        r is Ok <==> spec_set_ip_steps(
            platform,
            adapter@,
            ip_address@,
            subnet@,
            opt_str_view(gateway),
        ) is Some,
        r matches Ok(v) ==> Some(steps_view(v@)) == spec_set_ip_steps(
            platform,
            adapter@,
            ip_address@,
            subnet@,
            opt_str_view(gateway),
        ),
        r matches Err(e) ==> e@ == (ErrorV::InvalidSubnet { input: subnet@ }),
{
    let mask = match normalize_subnet_for_os(subnet, platform) {
        Ok(m) => m,
        Err(e) => {
            return Err(e);
        },
    };
    let mut steps: Vec<Step> = Vec::new();
    match platform {
        Platform::Windows => {
            let gateway_arg = match gateway {
                Some(g) => String::from_str(g),
                None => String::from_str("none"),
            };
            let mut args: Vec<String> = Vec::new();
            args.push(String::from_str("interface"));
            args.push(String::from_str("ip"));
            args.push(String::from_str("set"));
            args.push(String::from_str("address"));
            args.push(String::from_str(adapter));
            args.push(String::from_str("static"));
            args.push(String::from_str(ip_address));
            args.push(mask);
            args.push(gateway_arg);
            let cmd = CommandSpec { program: String::from_str("netsh"), args };
            steps.push(Step { cmd, fatal: true });
            proof {
                let expect = spec_set_ip_steps(
                    platform,
                    adapter@,
                    ip_address@,
                    subnet@,
                    opt_str_view(gateway),
                )->Some_0;
                assert(steps_view(steps@) =~= expect) by {
                    assert(steps@[0]@.cmd.args =~= expect[0].cmd.args);
                }
            }
        },
        Platform::Linux => {
            let mut flush_args: Vec<String> = Vec::new();
            flush_args.push(String::from_str("addr"));
            flush_args.push(String::from_str("flush"));
            flush_args.push(String::from_str("dev"));
            flush_args.push(String::from_str(adapter));
            let flush_cmd = CommandSpec { program: String::from_str("ip"), args: flush_args };
            steps.push(Step { cmd: flush_cmd, fatal: true });

            let mut addr_with_mask = String::from_str(ip_address);
            addr_with_mask.append(mask.as_str());
            let mut add_args: Vec<String> = Vec::new();
            add_args.push(String::from_str("addr"));
            add_args.push(String::from_str("add"));
            add_args.push(addr_with_mask);
            add_args.push(String::from_str("dev"));
            add_args.push(String::from_str(adapter));
            let add_cmd = CommandSpec { program: String::from_str("ip"), args: add_args };
            steps.push(Step { cmd: add_cmd, fatal: true });

            if let Some(g) = gateway {
                let mut route_args: Vec<String> = Vec::new();
                route_args.push(String::from_str("route"));
                route_args.push(String::from_str("add"));
                route_args.push(String::from_str("default"));
                route_args.push(String::from_str("via"));
                route_args.push(String::from_str(g));
                route_args.push(String::from_str("dev"));
                route_args.push(String::from_str(adapter));
                let route_cmd = CommandSpec { program: String::from_str("ip"), args: route_args };
                steps.push(Step { cmd: route_cmd, fatal: false });
            }
            proof {
                let expect = spec_set_ip_steps(
                    platform,
                    adapter@,
                    ip_address@,
                    subnet@,
                    opt_str_view(gateway),
                )->Some_0;
                assert(steps_view(steps@) =~= expect) by {
                    assert(steps@[0]@.cmd.args =~= expect[0].cmd.args);
                    assert(steps@[1]@.cmd.args =~= expect[1].cmd.args);
                    if gateway is Some {
                        assert(steps@[2]@.cmd.args =~= expect[2].cmd.args);
                    }
                }
            }
        },
    }
    Ok(steps)
}

/// Builds the additive address operation for one further address entry.
/// Fails only when the subnet cannot be normalized for the platform.
pub fn add_ip_addr(platform: Platform, adapter: &str, ip_address: &str, subnet: &str) -> (r: Result<
    Vec<Step>,
    ErrorDetail,
>)
    ensures
        r is Ok <==> spec_add_ip_steps(platform, adapter@, ip_address@, subnet@) is Some,
        r matches Ok(v) ==> Some(steps_view(v@)) == spec_add_ip_steps(
            platform,
            adapter@,
            ip_address@,
            subnet@,
        ),
        r matches Err(e) ==> e@ == (ErrorV::InvalidSubnet { input: subnet@ }),
{
    let mask = match normalize_subnet_for_os(subnet, platform) {
        Ok(m) => m,
        Err(e) => {
            return Err(e);
        },
    };
    let mut steps: Vec<Step> = Vec::new();
    match platform {
        Platform::Windows => {
            let mut args: Vec<String> = Vec::new();
            args.push(String::from_str("interface"));
            args.push(String::from_str("ip"));
            args.push(String::from_str("add"));
            args.push(String::from_str("address"));
            args.push(String::from_str(adapter));
            args.push(String::from_str(ip_address));
            args.push(mask);
            let cmd = CommandSpec { program: String::from_str("netsh"), args };
            steps.push(Step { cmd, fatal: true });
        },
        Platform::Linux => {
            let mut addr_with_mask = String::from_str(ip_address);
            addr_with_mask.append(mask.as_str());
            let mut args: Vec<String> = Vec::new();
            args.push(String::from_str("addr"));
            args.push(String::from_str("add"));
            args.push(addr_with_mask);
            args.push(String::from_str("dev"));
            args.push(String::from_str(adapter));
            let cmd = CommandSpec { program: String::from_str("ip"), args };
            steps.push(Step { cmd, fatal: true });
        },
    }
    proof {
        let expect = spec_add_ip_steps(platform, adapter@, ip_address@, subnet@)->Some_0;
        assert(steps_view(steps@) =~= expect) by {
            assert(steps@[0]@.cmd.args =~= expect[0].cmd.args);
        }
    }
    Ok(steps)
}

/// Builds the command that adds one more gateway with the given metric.
pub fn add_gateway(platform: Platform, adapter: &str, gateway: &str, metric: usize) -> (r: Vec<
    Step,
>)
    ensures
        steps_view(r@) == spec_add_gateway_steps(platform, adapter@, gateway@, metric as nat),
{
    let metric_str = decimal_string(metric);
    let mut steps: Vec<Step> = Vec::new();
    match platform {
        Platform::Windows => {
            let mut args: Vec<String> = Vec::new();
            args.push(String::from_str("interface"));
            args.push(String::from_str("ip"));
            args.push(String::from_str("add"));
            args.push(String::from_str("route"));
            args.push(String::from_str("0.0.0.0/0"));
            args.push(String::from_str(gateway));
            args.push(String::from_str(adapter));
            args.push(String::from_str("metric"));
            args.push(metric_str);
            let cmd = CommandSpec { program: String::from_str("netsh"), args };
            steps.push(Step { cmd, fatal: true });
        },
        Platform::Linux => {
            let mut args: Vec<String> = Vec::new();
            args.push(String::from_str("route"));
            args.push(String::from_str("add"));
            args.push(String::from_str("default"));
            args.push(String::from_str("via"));
            args.push(String::from_str(gateway));
            args.push(String::from_str("dev"));
            args.push(String::from_str(adapter));
            args.push(String::from_str("metric"));
            args.push(metric_str);
            let cmd = CommandSpec { program: String::from_str("ip"), args };
            steps.push(Step { cmd, fatal: true });
        },
    }
    proof {
        let expect = spec_add_gateway_steps(platform, adapter@, gateway@, metric as nat);
        assert(steps_view(steps@) =~= expect) by {
            assert(steps@[0]@.cmd.args =~= expect[0].cmd.args);
        }
    }
    steps
}

/// Builds the command that applies the profile's DNS selection: a restore of
/// automatic DNS for the automatic selection, otherwise the static pair.
pub fn set_dns(platform: Platform, adapter: &str, dns: &DNS) -> (r: Vec<Step>)
    ensures
        steps_view(r@) == spec_set_dns_steps(platform, adapter@, *dns),
{
    let resolved = dns.addresses();
    let mut steps: Vec<Step> = Vec::new();
    match platform {
        Platform::Windows => {
            match resolved {
                None => {
                    let mut line = String::from_str("netsh interface ip set dnsservers \"");
                    line.append(adapter);
                    line.append("\" source=dhcp");
                    let mut args: Vec<String> = Vec::new();
                    args.push(String::from_str("-Command"));
                    args.push(line);
                    let cmd = CommandSpec { program: String::from_str("powershell"), args };
                    steps.push(Step { cmd, fatal: true });
                },
                Some(pair) => {
                    let mut line = String::from_str("netsh interface ip set dns \"");
                    line.append(adapter);
                    line.append("\" static ");
                    line.append(pair.0.as_str());
                    line.append(" primary validate=no; netsh interface ip add dns \"");
                    line.append(adapter);
                    line.append("\" ");
                    line.append(pair.1.as_str());
                    line.append(" validate=no");
                    let mut args: Vec<String> = Vec::new();
                    args.push(String::from_str("-Command"));
                    args.push(line);
                    let cmd = CommandSpec { program: String::from_str("powershell"), args };
                    steps.push(Step { cmd, fatal: true });
                },
            }
        },
        Platform::Linux => {
            match resolved {
                None => {
                    let mut args: Vec<String> = Vec::new();
                    args.push(String::from_str("con"));
                    args.push(String::from_str("modify"));
                    args.push(String::from_str(adapter));
                    args.push(String::from_str("ipv4.dns"));
                    args.push(String::from_str(""));
                    args.push(String::from_str("ipv4.ignore-auto-dns"));
                    args.push(String::from_str("no"));
                    let cmd = CommandSpec { program: String::from_str("nmcli"), args };
                    steps.push(Step { cmd, fatal: true });
                },
                Some(pair) => {
                    let mut servers = pair.0;
                    servers.append(",");
                    servers.append(pair.1.as_str());
                    let mut args: Vec<String> = Vec::new();
                    args.push(String::from_str("con"));
                    args.push(String::from_str("modify"));
                    args.push(String::from_str(adapter));
                    args.push(String::from_str("ipv4.dns"));
                    args.push(servers);
                    args.push(String::from_str("ipv4.ignore-auto-dns"));
                    args.push(String::from_str("yes"));
                    let cmd = CommandSpec { program: String::from_str("nmcli"), args };
                    steps.push(Step { cmd, fatal: true });
                },
            }
        },
    }
    proof {
        let expect = spec_set_dns_steps(platform, adapter@, *dns);
        assert(steps_view(steps@) =~= expect) by {
            assert(steps@[0]@.cmd.args =~= expect[0].cmd.args);
        }
    }
    steps
}

} // verus!
