//! Errors of network simulation.

use vstd::prelude::*;

use crate::network_sim::qdisc::QdiscError;

verus! {

/// Errors of applying network parameters.
#[derive(Debug)]
pub enum RuntimeError {
    /// A traffic-control operation failed.
    Qdisc(QdiscError),
    /// The parameters were rejected.
    InvalidParams(String),
}

} // verus!
