//! The consumer side: what a received datagram holds.

pub mod receiver;
