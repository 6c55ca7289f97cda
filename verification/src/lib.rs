//! Verified core of a Linux network-emulation testbench for RIST bonding:
//! traffic-control argument construction, qdisc statistics parsing,
//! impairment schedules, link bookkeeping and metrics formatting.

pub mod bench_cli;
pub mod demos;
pub mod integration;
pub mod netns_testbench;
pub mod network_sim;
pub mod observability;
pub mod outside;
pub mod text;
