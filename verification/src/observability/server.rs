//! Settings of the observability server, and the errors of the
//! observability system.

use vstd::prelude::*;
use vstd::string::*;

use crate::network_sim::qdisc::lit;

verus! {

/// Where the metrics server listens and what it offers.
#[derive(Debug, Clone)]
pub struct ObservabilityConfig {
    pub bind_address: String,
    pub port: u16,
    pub enable_cors: bool,
    pub dashboard_enabled: bool,
}

impl Default for ObservabilityConfig {
    /// Listens on `127.0.0.1:8080` with CORS and the dashboard enabled.
    fn default() -> (c: Self)
        ensures
            c.bind_address@ == "127.0.0.1"@,
            c.port == 8080,
            c.enable_cors,
            c.dashboard_enabled,
    {
        ObservabilityConfig {
            bind_address: lit("127.0.0.1"),
            port: 8080,
            enable_cors: true,
            dashboard_enabled: true,
        }
    }
}

/// Errors of the observability system.
#[derive(Debug)]
pub enum ObservabilityError {
    Collection(String),
    Export(anyhow::Error),
    Server(String),
    Trace(String),
    GStreamer(String),
    Io(std::io::Error),
    Serialization(serde_json::Error),
}

} // verus!
