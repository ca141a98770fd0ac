//! The base station: commands out, telemetry in.

pub mod command_parse;
pub mod console;
pub mod csv_log;
pub mod display;
pub mod link;
