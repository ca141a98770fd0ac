//! The link layer: who is on the network, and what may be sent to whom.
//!
//! The sockets themselves are not here. A link decides where a frame goes and
//! whether it may go at all, and which peer a datagram came from.

pub mod peer;
pub mod udp;
