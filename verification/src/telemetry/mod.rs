//! Health, logging and the feed to the base station.

pub mod boards;
pub mod csv_fmt;
pub mod csv_writer;
pub mod feed;
pub mod gnss_source;
pub mod health;
pub mod runs;
pub mod stall;
