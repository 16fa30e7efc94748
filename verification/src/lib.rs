//! Market-data distribution core: MoldUDP64 framing of ITCH-style messages,
//! the producer-side sequencing and batching rules, the consumer-side datagram
//! parser, a price-time priority limit order book and a synthetic order source.
//!
//! The functions of this crate carry contracts that Verus proves. The calls
//! into `bytes`, `circular_buffer` and `fastrand`, and two queries of
//! `BTreeMap`, stand behind small wrappers whose contracts restate what those
//! libraries document; they are in `engine::buffer`, `generator::ring` and
//! `lob::ladder`. Sockets, threads, clocks and floating-point sampling live
//! outside of this crate.

pub mod client;
pub mod engine;
pub mod gateway;
pub mod generator;
pub mod lob;
pub mod wire;
