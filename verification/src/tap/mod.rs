//! Watching the bus: what arrives, how often, and how much of it is lost.

pub mod echo;
pub mod registry;
pub mod stats;
