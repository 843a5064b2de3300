//! Host metrics: what the files under /proc say, and the counters made of it.
pub mod cpu;
pub mod disk;
pub mod host_metric;
pub mod laws;
pub mod memory;
pub mod network;
pub mod ratio;
pub mod reading;
