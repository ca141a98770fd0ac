//! GNSS input and the mission.
//!
//! Two receivers deliver text over serial lines: one in NMEA sentences, one in
//! JSON objects. Both end up as fixes, on which the mission runs.

pub mod assemble;
pub mod lines;
pub mod mission;
pub mod nmea;
pub mod rtcm;
pub mod spresense;
