//! Verified logic of a lane-following rover: its wire protocol and the
//! decisions that its processes take on what arrives over it.
//!
//! Nothing here touches a socket, a clock, a file or a floating-point unit.
//! Real-valued quantities travel as IEEE 754 bit patterns (see [`reals`]), time
//! arrives as an argument, and what a process does with the outside world is
//! left to its `main`.

pub mod bus;
pub mod calendar;
pub mod control;
pub mod csv;
pub mod doctor;
pub mod link;
pub mod msgs;
pub mod nav;
pub mod percent;
pub mod reals;
pub mod station;
pub mod tap;
pub mod telemetry;
pub mod text;
