//! Startup configuration, built once from the command line and then
//! shared read-only.

use vstd::prelude::*;

verus! {

/// The validated startup configuration. IP addresses are carried in their
/// string form.
pub struct Config {
    /// The port number to run the proxy server on.
    pub proxy: u16,
    /// The interval in seconds between reports.
    pub interval: u64,
    /// The host of the target server.
    pub host: String,
    /// The port of the target server.
    pub port: u16,
    /// Blacklisted IP addresses.
    pub blacklist: Vec<String>,
    /// Whether to send the reports to a monitoring server.
    pub monitoring: bool,
    /// The host of the monitoring server.
    pub server: String,
    /// The key to authenticate with the monitoring server.
    pub key: String,
}

} // verus!
