//! The error taxonomy of the profile engine: a subnet that cannot be
//! interpreted, a configuration command that ran and failed, a command that
//! could not be started, and an apply request without an adapter.

use vstd::prelude::*;

verus! {

/// Why an operation of the profile engine failed.
#[derive(Debug, Clone, PartialEq, Eq, Hash)]
pub enum ErrorDetail {
    /// A subnet string is neither a usable dotted-decimal mask nor a usable
    /// CIDR prefix for the requested conversion.
    InvalidSubnet { input: String },
    /// A configuration command ran and exited with failure; the captured
    /// diagnostic text is attached.
    CommandFailed { diagnostic: String },
    /// A configuration command could not be started at all.
    SpawnFailed { cause: String },
    /// An apply was requested with no adapter selected.
    NoInterfaceSelected,
}

/// The mathematical shape of an [`ErrorDetail`].
pub ghost enum ErrorV {
    InvalidSubnet { input: Seq<char> },
    CommandFailed { diagnostic: Seq<char> },
    SpawnFailed { cause: Seq<char> },
    NoInterfaceSelected,
}

impl View for ErrorDetail {
    type V = ErrorV;

    open spec fn view(&self) -> ErrorV {
        match self {
            ErrorDetail::InvalidSubnet { input } => ErrorV::InvalidSubnet { input: input@ },
            ErrorDetail::CommandFailed { diagnostic } => ErrorV::CommandFailed {
                diagnostic: diagnostic@,
            },
            ErrorDetail::SpawnFailed { cause } => ErrorV::SpawnFailed { cause: cause@ },
            ErrorDetail::NoInterfaceSelected => ErrorV::NoInterfaceSelected,
        }
    }
}

impl ErrorDetail {
    /// A single human-readable line describing the failure.
    pub fn message(&self) -> (r: String)
        ensures
            match self@ {
                ErrorV::InvalidSubnet { input } => r@ == "invalid subnet: "@ + input,
                ErrorV::CommandFailed { diagnostic } => r@ == "command failed: "@ + diagnostic,
                ErrorV::SpawnFailed { cause } => r@ == "command could not be started: "@ + cause,
                ErrorV::NoInterfaceSelected => r@ == "no interface selected"@,
            },
    {
        match self {
            ErrorDetail::InvalidSubnet { input } => {
                let mut m = String::from_str("invalid subnet: ");
                m.append(input.as_str());
                m
            },
            ErrorDetail::CommandFailed { diagnostic } => {
                let mut m = String::from_str("command failed: ");
                m.append(diagnostic.as_str());
                m
            },
            ErrorDetail::SpawnFailed { cause } => {
                let mut m = String::from_str("command could not be started: ");
                m.append(cause.as_str());
                m
            },
            ErrorDetail::NoInterfaceSelected => String::from_str("no interface selected"),
        }
    }
}

} // verus!
