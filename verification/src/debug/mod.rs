//! The debug protocol: what a controller asks of a running agent, and what it answers.
pub mod beacon;
pub mod debugger;
pub mod ebpf;
pub mod laws;
pub mod metrics;
pub mod module;
pub mod platform;
pub mod policy;
pub mod rpc;
