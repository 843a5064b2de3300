//! The controller's side of the debug protocol: what it asks an agent, and what it prints of the
//! answers.
pub mod client;
pub mod entry;
pub mod laws;
pub mod list;
pub mod protocol;
pub mod session;
