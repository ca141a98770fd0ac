//! Wire types shared by every rover node and both microcontroller boards.
//!
//! # Contract
//!
//! - Fixed-width little-endian, no padding, no alignment, fields in declaration
//!   order. Every type has a constant [`Wire::WIRE_LEN`].
//! - SI units throughout, with the unit in the field name wherever it could be
//!   read two ways (`cross_track_m`, `speed_mps`, `gyro_radps`).
//! - No variable-length data anywhere. Presence is always an explicit flag or a
//!   sentinel.
//! - Every type carries a stable [`Wire::TYPE_ID`]. IDs are permanent: reuse
//!   one for a different shape and two machines will silently disagree.
//!
//! # Sign conventions
//!
//! `heading_err_rad`, `cross_track_m` and `steer` are all positive when the
//! correct response is *steer right*.

pub mod codec;
pub mod flags;
pub mod frame;
pub mod wire;
pub mod kinds;
pub mod boards;
pub mod gnss;
pub mod motion;
pub mod debug;
pub mod mission;
pub mod telemetry;
