//! The agent: its state, its configuration, and the components it starts and stops.
pub mod assembly;
pub mod changes;
pub mod components;
pub mod config;
pub mod dispatcher;
pub mod domain;
pub mod identity;
pub mod interfaces;
pub mod link;
pub mod main_loop;
pub mod planning;
pub mod rounds;
pub mod sender;
pub mod sequences;
pub mod startup;
pub mod state;
