//! Queueing-discipline configurations of the namespace testbench.

use vstd::prelude::*;

verus! {

/// Errors of qdisc operations.
#[derive(Debug)]
pub enum QdiscError {
    Netlink(rtnetlink::Error),
    InvalidConfig(String),
    NotFound(String),
    MessageEncoding(String),
}

/// Token Bucket Filter (TBF) configuration.
#[derive(Clone, Copy, Debug, PartialEq, Eq, Structural)]
pub struct TbfConfig {
    /// Rate in bits per second
    pub rate_bps: u64,
    /// Burst size in bytes
    pub burst_bytes: u32,
    /// Buffer size in bytes
    pub buffer_bytes: u32,
}

/// Hierarchical Token Bucket (HTB) configuration.
#[derive(Clone, Copy, Debug, PartialEq, Eq, Structural)]
pub struct HtbConfig {
    /// Rate in bits per second
    pub rate_bps: u64,
    /// Ceiling rate in bits per second
    pub ceil_bps: u64,
    /// Burst size in bytes
    pub burst_bytes: u32,
}

/// Fair Queuing with CoDel configuration.
#[derive(Clone, Copy, Debug, PartialEq, Eq, Structural)]
pub struct FqCodelConfig {
    /// Target delay in microseconds
    pub target_us: u32,
    /// Interval in microseconds
    pub interval_us: u32,
    /// Packet limit
    pub limit_packets: u32,
}

/// Qdisc manager for traffic control operations.
#[derive(Debug)]
pub struct QdiscManager;

impl QdiscManager {
    /// A qdisc manager.
    pub fn new() -> (m: Self)
        ensures
            m == QdiscManager,
    {
        QdiscManager
    }
}

impl Default for QdiscManager {
    fn default() -> (m: Self)
        ensures
            m == QdiscManager,
    {
        QdiscManager::new()
    }
}

} // verus!
