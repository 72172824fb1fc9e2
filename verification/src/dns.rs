//! DNS selections: automatic resolution, four well-known providers with
//! fixed server pairs, or a custom pair, and their resolution to concrete
//! (primary, secondary) addresses.

use vstd::prelude::*;

verus! {

/// A DNS selection. Exactly one choice is active; the named providers carry
/// no state of their own, only identity.
#[derive(Debug, Clone, PartialEq, Eq, Hash)]
pub enum DNS {
    /// Use the adapter's automatic (DHCP-provided) DNS.
    Dhcp,
    Quad9,
    Google,
    Cloudflare,
    OpenDNS,
    /// A user-supplied server pair, taken verbatim.
    Custom { primary: String, secondary: String },
}

impl Default for DNS {
    /// The default selection is automatic DNS.
    fn default() -> (r: Self)
        ensures
            r == DNS::Dhcp,
    {
        DNS::Dhcp
    }
}

/// The (primary, secondary) server pair a DNS selection resolves to, or
/// nothing for automatic DNS.
pub open spec fn spec_dns_addresses(dns: DNS) -> Option<(Seq<char>, Seq<char>)> {
    match dns {
        DNS::Dhcp => None,
        DNS::Quad9 => Some(("9.9.9.9"@, "149.112.112.112"@)),
        DNS::Google => Some(("8.8.8.8"@, "8.8.4.4"@)),
        DNS::Cloudflare => Some(("1.1.1.2"@, "1.0.0.2"@)),
        DNS::OpenDNS => Some(("208.67.222.222"@, "208.67.220.220"@)),
        DNS::Custom { primary, secondary } => Some((primary@, secondary@)),
    }
}

impl DNS {
    /// The concrete server pair for this selection, or `None` for automatic
    /// DNS.
    pub fn addresses(&self) -> (r: Option<(String, String)>)
        ensures
            r is Some <==> spec_dns_addresses(*self) is Some,
            r matches Some(p) ==> spec_dns_addresses(*self) == Some((p.0@, p.1@)),
    {
        match self {
            DNS::Dhcp => None,
            DNS::Quad9 => Some(
                (String::from_str("9.9.9.9"), String::from_str("149.112.112.112")),
            ),
            DNS::Google => Some((String::from_str("8.8.8.8"), String::from_str("8.8.4.4"))),
            DNS::Cloudflare => Some((String::from_str("1.1.1.2"), String::from_str("1.0.0.2"))),
            DNS::OpenDNS => Some(
                (String::from_str("208.67.222.222"), String::from_str("208.67.220.220")),
            ),
            DNS::Custom { primary, secondary } => Some((primary.clone(), secondary.clone())),
        }
    }

    /// The primary server for this selection, or `None` for automatic DNS.
    pub fn primary(&self) -> (r: Option<String>)
        ensures
            r is Some <==> spec_dns_addresses(*self) is Some,
            r matches Some(p) ==> spec_dns_addresses(*self) matches Some(pair) && p@ == pair.0,
    {
        match self.addresses() {
            Some(pair) => Some(pair.0),
            None => None,
        }
    }

    /// The secondary server for this selection, or `None` for automatic DNS.
    pub fn secondary(&self) -> (r: Option<String>)
        ensures
            r is Some <==> spec_dns_addresses(*self) is Some,
            r matches Some(p) ==> spec_dns_addresses(*self) matches Some(pair) && p@ == pair.1,
    {
        match self.addresses() {
            Some(pair) => Some(pair.1),
            None => None,
        }
    }
}

} // verus!
