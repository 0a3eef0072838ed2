//! The packets that carry a codeplug image to and from a radio.

pub mod common;
pub mod firmware;
pub mod cps_payload;
pub mod cps_packet;
pub mod session;
