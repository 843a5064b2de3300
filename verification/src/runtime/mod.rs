//! The pipeline runtime: bounded queues, stages and the blueprint that wires them.
pub mod blueprint;
pub mod delivery;
pub mod pipeline;
pub mod queue;
pub mod selection;
