//! The decision logic of a host monitoring agent: parsers, bounded queues, pipelines, the
//! component life cycle and the debug protocol, each with its contract.
pub mod agent;
pub mod bytes;
pub mod ctl;
pub mod debug;
pub mod error;
pub mod metric;
pub mod outside;
pub mod pid_file;
pub mod registry;
pub mod runtime;
pub mod shown;
pub mod sort;
pub mod tasks;
pub mod text;
pub mod text_laws;
