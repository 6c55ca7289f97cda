pub mod addr;
pub mod bench;
pub mod cellular;
pub mod netns;
pub mod qdisc;
pub mod runtime;
pub mod veth;
