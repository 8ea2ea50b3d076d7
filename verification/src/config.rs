//! What a deployment sets: where requests go, and where they come in.
use vstd::prelude::*;

verus! {

/// The port on which the proxy listens where none is given.
pub const DEFAULT_PORT: u16 = 18081;

/// The settings of one proxy.
#[derive(Debug, Clone)]
pub struct Config {
    /// The address of the upstream server.
    pub target: String,
    /// The port on which the proxy listens.
    pub port: u16,
}

} // verus!
