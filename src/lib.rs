//! Orchestration logic for running submitted code inside short-lived guest
//! virtual machines: execution recipes, the agent wire protocol, guest
//! network leases, and the aggregation of step results.

pub mod aggregate;
pub mod config;
pub mod model;
pub mod net;
pub mod protocol;
pub mod service;
pub mod text;
pub mod vmm;
