//! Estimate, guide, actuate: the decisions of the control process.
//!
//! Controllers propose, actuation disposes. What the filter and the guidance
//! law compute in floating point arrives here as values; which of them counts,
//! when, and within which limits is decided here.

pub mod actuator;
pub mod cycle;
pub mod estimate;
pub mod gate;
pub mod law;
pub mod speed;
pub mod steer;
