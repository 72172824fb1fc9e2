//! The two families of platform configuration tooling the engine can target.
//! The step ordering and the fail-fast policy of the applier are the same for
//! both; only the command grammar and the subnet notation differ.

use vstd::prelude::*;

verus! {

/// Which platform's configuration tools the commands are built for.
///
/// `Windows` tooling (`netsh`, `powershell`) expects dotted-decimal subnet
/// masks; `Linux` tooling (`ip`, `nmcli`) expects CIDR prefixes.
#[derive(Debug, Clone, Copy, PartialEq, Eq, Structural, Hash)]
pub enum Platform {
    Windows,
    Linux,
}

} // verus!
