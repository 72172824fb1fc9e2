//! Network profile engine: validation of IPv4 and subnet-mask syntax,
//! translation between CIDR and dotted-decimal subnet notation, resolution of
//! DNS selections to concrete server pairs, and the construction of the
//! ordered, fail-fast sequence of platform configuration commands that applies
//! a profile to a network adapter.

pub mod apply;
pub mod command;
pub mod digits;
pub mod dns;
pub mod error;
pub mod platform;
pub mod profile;
pub mod subnet;
pub mod validate;

pub use apply::load_profile;
pub use apply::resolve_adapter;
pub use apply::run_plan;
pub use apply::step_result;
pub use apply::ExecOutcome;
pub use command::add_gateway;
pub use command::add_ip_addr;
pub use command::set_dns;
pub use command::set_ip_addr;
pub use command::CommandSpec;
pub use command::Step;
pub use digits::decimal_string;
pub use dns::DNS;
pub use error::ErrorDetail;
pub use platform::Platform;
pub use profile::remove_items_by_indices;
pub use profile::NetworkProfile;
pub use profile::IP;
pub use profile::MAC;
pub use subnet::check_valid_subnet;
pub use subnet::cidr_to_dotted_decimal;
pub use subnet::dotted_decimal_to_cidr;
pub use subnet::normalize_subnet_for_os;
pub use validate::check_valid_ipv4;
pub use validate::parse_ipv4;
