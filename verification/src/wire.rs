//! Bit-exact wire formats: big-endian field codecs, typed ITCH-style payloads
//! and the MoldUDP64 datagram layout.

pub mod be;
pub mod error;
pub mod itch;
pub mod laws;
pub mod mold;
