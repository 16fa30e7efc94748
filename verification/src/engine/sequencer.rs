//! The sequencer: stamps each payload with the current session and that
//! session's next sequence number.

use crate::engine::buffer::payload_bytes;
use crate::engine::sessions::SessionTable;
use crate::wire::mold::SessionID;
use bytes::Bytes;
use vstd::prelude::*;

verus! {

/// The payload of one message block, not yet numbered.
#[derive(Debug)]
pub struct Event {
    pub payload: Bytes,
}

/// A payload with the session and sequence number it was given.
#[derive(Debug)]
pub struct SequencedEvent {
    pub payload: Bytes,
    pub sequence_number: u64,
    pub session_id: SessionID,
}

impl SequencedEvent {
    /// The bytes of the payload.
    pub open spec fn payload_view(&self) -> Seq<u8> {
        payload_bytes(&self.payload)
    }
}

/// Numbers payloads in the order in which they are handed to it.
pub struct Sequencer {
    pub session_table: SessionTable,
}

impl Sequencer {
    /// The sequence number that the next payload gets.
    pub open spec fn spec_next(&self) -> u64 {
        self.session_table.spec_next(self.session_table.spec_current()@)
    }

    /// A sequencer over a fresh session table: the first payload of every
    /// session gets number 1, and the current session is ten zero bytes.
    pub fn new() -> (sequencer: Self)
        ensures
            forall|tag: Seq<u8>| sequencer.session_table.spec_next(tag) == 1,
            sequencer.session_table.spec_current()@ == Seq::new(10, |i: int| 0u8),
    {
        Sequencer { session_table: SessionTable::new() }
    }

    /// A sequencer that numbers by `session_table`.
    pub fn with_table(session_table: SessionTable) -> (sequencer: Self)
        ensures
            sequencer.session_table == session_table,
    {
        Sequencer { session_table }
    }

    /// Whether the current session has a number left to give.
    pub fn has_next(&self) -> (left: bool)
        ensures
            left == (self.spec_next() < u64::MAX),
    {
        let current = self.session_table.get_current_session();
        self.session_table.peek_sequence(&current) < u64::MAX
    }

    /// Stamps one payload: it keeps its bytes, gets the current session and that
    /// session's next sequence number, and the session moves on by exactly one.
    /// So of two payloads stamped one after the other in a session, the second
    /// has the number of the first plus one.
    pub fn sequence(&mut self, event: Event) -> (stamped: SequencedEvent)
        requires
            old(self).spec_next() < u64::MAX,
        ensures
            stamped.payload == event.payload,
            stamped.session_id == old(self).session_table.spec_current(),
            stamped.sequence_number == old(self).spec_next(),
            final(self).spec_next() == stamped.sequence_number + 1,
            final(self).session_table.spec_current() == old(self).session_table.spec_current(),
            forall|other: Seq<u8>|
                other != stamped.session_id@ ==> final(self).session_table.spec_next(other) == old(
                    self,
                ).session_table.spec_next(other),
    {
        let session_id = self.session_table.get_current_session();
        let sequence_number = self.session_table.next_sequence(session_id);
        SequencedEvent { payload: event.payload, sequence_number, session_id }
    }
}

} // verus!
