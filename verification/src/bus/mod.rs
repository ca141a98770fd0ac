//! Publish/subscribe and the command protocol.
//!
//! A stream is unicast fan-out from a static routing table, newest-wins on the
//! receiving end, with no retransmit and no ordering guarantee: each message
//! type has exactly one slot, and a new arrival overwrites it.

pub mod command;
pub mod config;
pub mod streams;
