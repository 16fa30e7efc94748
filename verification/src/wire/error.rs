//! What can be wrong with received bytes.

use vstd::prelude::*;

verus! {

/// Why a datagram or a message in it could not be read.
#[derive(Debug, Clone, Copy, PartialEq, Eq, Structural)]
pub enum WireError {
    /// Fewer bytes than the fixed fields take.
    MalformedFrame,
    /// A block declares more bytes than are left in the datagram.
    TruncatedBlock,
    /// The first byte of a message is no known type tag.
    UnknownMessageType,
}

} // verus!
