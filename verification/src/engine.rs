//! The producer side: session numbering, sequencing and batching of payloads
//! into datagrams. Time is a number of nanoseconds that the caller reads from
//! a monotonic clock; datagrams are handed back to the caller to be sent.

pub mod buffer;
pub mod laws;
pub mod publisher;
pub mod sequencer;
pub mod sequencerpublisher;
pub mod sessions;
