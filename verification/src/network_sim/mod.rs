pub mod command;
pub mod docker;
pub mod link;
pub mod namespace;
pub mod nsapi;
pub mod qdisc;
pub mod types;
