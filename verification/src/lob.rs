//! The limit order book: price-time priority matching with lazy cancellation.

pub mod book;
pub mod ladder;
pub mod laws;
pub mod lemmas;
pub mod level;
pub mod model;
pub mod order;
