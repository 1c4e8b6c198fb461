use vstd::prelude::*;

verus! {

/// Malformed configuration input. It is fatal at start-up, before any query
/// is served.
#[derive(Clone, Copy, Debug, PartialEq, Eq, Structural)]
pub enum ConfigError {
    /// A line that is not a network in CIDR notation.
    Network,
    /// A line that is not a domain name.
    Domain,
}

} // verus!
