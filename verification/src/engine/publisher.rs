//! The publisher: collects sequenced payloads into one datagram until the
//! datagram is full, the session changes or the flush deadline passes.

use crate::engine::buffer::{
    buffer_bytes, buffer_put_slice, buffer_put_u16, buffer_slice, buffer_truncate,
    buffer_with_capacity, payload_slice,
};
use crate::engine::sequencer::SequencedEvent;
use crate::engine::sessions::same_session;

use crate::wire::mold::{
    block, blocks, blocks_len, blocks_push, frame, Header, SessionID, HEADER_LEN, MAX_PACKET,
    MAX_PAYLOAD,
};
use bytes::BytesMut;
use vstd::prelude::*;

verus! {

/// The point in time at which a publisher that flushed at `now` flushes next:
/// `now + flush_interval`, or the largest time where that does not fit.
pub open spec fn deadline(now: u64, flush_interval: u64) -> u64 {
    if now + flush_interval > u64::MAX {
        u64::MAX
    } else {
        (now + flush_interval) as u64
    }
}

/// What a publisher holds: the payloads of the datagram under construction, in
/// the order in which they arrived, the session and sequence number of the first
/// of them, and the flush timer.
pub ghost struct PublisherView {
    pub session: Option<SessionID>,
    pub first_sequence: Option<u64>,
    pub payloads: Seq<Seq<u8>>,
    pub next_flush: u64,
    pub flush_interval: u64,
}

impl PublisherView {
    /// Bytes of the datagram under construction, header included.
    pub open spec fn size(self) -> nat {
        HEADER_LEN as nat + blocks(self.payloads).len()
    }

    /// The datagram that a flush emits.
    pub open spec fn datagram(self) -> Seq<u8>
        recommends
            self.payloads.len() > 0,
    {
        frame(self.session->0@, self.first_sequence->0, self.payloads)
    }

    /// Whether a payload of `session` has to wait for a flush: the buffer holds
    /// messages, and they are of another session or leave no room for it.
    pub open spec fn flushes_before(self, session: SessionID, payload: Seq<u8>) -> bool {
        self.payloads.len() > 0 && (self.session != Some(session) || self.size() + 2
            + payload.len() > MAX_PACKET)
    }

    /// The state after a flush at `now`: nothing buffered, the timer rearmed.
    pub open spec fn flushed(self, now: u64) -> Self {
        PublisherView {
            session: None,
            first_sequence: None,
            payloads: Seq::empty(),
            next_flush: deadline(now, self.flush_interval),
            flush_interval: self.flush_interval,
        }
    }

    /// The state after a payload was appended.
    pub open spec fn appended(self, session: SessionID, sequence_number: u64, payload: Seq<u8>)
        -> Self {
        PublisherView {
            session: if self.payloads.len() == 0 {
                Some(session)
            } else {
                self.session
            },
            first_sequence: if self.payloads.len() == 0 {
                Some(sequence_number)
            } else {
                self.first_sequence
            },
            payloads: self.payloads.push(payload),
            next_flush: self.next_flush,
            flush_interval: self.flush_interval,
        }
    }

    /// The state after an event was enqueued at `now`.
    pub open spec fn enqueued(
        self,
        session: SessionID,
        sequence_number: u64,
        payload: Seq<u8>,
        now: u64,
    ) -> Self {
        if self.flushes_before(session, payload) {
            self.flushed(now).appended(session, sequence_number, payload)
        } else {
            self.appended(session, sequence_number, payload)
        }
    }

    /// What holds of every publisher: the datagram under construction fits a
    /// packet, each payload fits a datagram of its own, and the session and
    /// first sequence number are known exactly while something is buffered.
    pub open spec fn valid(self) -> bool {
        &&& self.size() <= MAX_PACKET
        &&& forall|i: int| 0 <= i < self.payloads.len() ==> (#[trigger] self.payloads[i]).len()
            <= MAX_PAYLOAD
        &&& self.payloads.len() > 0 <==> self.session is Some
        &&& self.payloads.len() > 0 <==> self.first_sequence is Some
    }
}

/// Batches sequenced payloads into datagrams.
pub struct Publisher {
    packet: BytesMut,
    message_count: usize,
    current_session: Option<SessionID>,
    first_sequence_number: Option<u64>,
    flush_interval: u64,
    next_flush: u64,
    payloads: Ghost<Seq<Seq<u8>>>,
}

impl View for Publisher {
    type V = PublisherView;

    closed spec fn view(&self) -> PublisherView {
        PublisherView {
            session: self.current_session,
            first_sequence: self.first_sequence_number,
            payloads: self.payloads@,
            next_flush: self.next_flush,
            flush_interval: self.flush_interval,
        }
    }
}

impl Publisher {
    /// The invariant of the buffer: 20 reserved bytes, then exactly the blocks of
    /// the buffered payloads in arrival order, counted by the message count.
    pub closed spec fn wf(&self) -> bool {
        &&& self@.valid()
        &&& buffer_bytes(&self.packet).len() == self@.size()
        &&& buffer_bytes(&self.packet).skip(HEADER_LEN as int) == blocks(self.payloads@)
        &&& self.message_count == self.payloads@.len()
    }

    /// What `wf` says of the view.
    pub proof fn wf_valid(&self)
        requires
            self.wf(),
        ensures
            self@.valid(),
    {
    }

    /// A publisher with nothing buffered that flushes every `flush_interval`
    /// nanoseconds, first at `now + flush_interval`.
    pub fn new(flush_interval: u64, now: u64) -> (publisher: Self)
        ensures
            publisher.wf(),
            publisher@ == (PublisherView {
                session: None,
                first_sequence: None,
                payloads: Seq::empty(),
                next_flush: deadline(now, flush_interval),
                flush_interval,
            }),
    {
        let mut packet = buffer_with_capacity(MAX_PACKET);
        let reserved = [0u8; 20];
        buffer_put_slice(&mut packet, reserved.as_slice());
        let publisher = Publisher {
            packet,
            message_count: 0,
            current_session: None,
            first_sequence_number: None,
            flush_interval,
            next_flush: now.saturating_add(flush_interval),
            payloads: Ghost(Seq::empty()),
        };
        assert(buffer_bytes(&publisher.packet).skip(HEADER_LEN as int) =~= blocks(Seq::empty()));
        publisher
    }

    /// Whether the flush deadline has passed at `now`.
    pub fn due(&self, now: u64) -> (due: bool)
        ensures
            due == (now >= self@.next_flush),
    {
        now >= self.next_flush
    }

    /// Messages in the datagram under construction.
    pub fn message_count(&self) -> (count: usize)
        requires
            self.wf(),
        ensures
            count == self@.payloads.len(),
    {
        self.message_count
    }

    /// Bytes of the datagram under construction, header included.
    pub fn packet_size(&self) -> (size: usize)
        requires
            self.wf(),
        ensures
            size == self@.size(),
            size <= MAX_PACKET,
    {
        buffer_slice(&self.packet).len()
    }

    /// Emits the datagram under construction, if it holds any message: the
    /// header is filled in with the session and sequence number of the first
    /// message and with the message count, and the buffer is emptied. Whether or
    /// not anything was emitted, the next flush is due at `now + flush_interval`.
    pub fn flush(&mut self, now: u64) -> (sent: Option<Vec<u8>>)
        requires
            old(self).wf(),
        ensures
            final(self).wf(),
            final(self)@ == old(self)@.flushed(now),
            old(self)@.payloads.len() == 0 ==> sent is None,
            old(self)@.payloads.len() > 0 ==> sent is Some && sent->0@ == old(self)@.datagram(),
            sent is Some ==> sent->0@.len() <= MAX_PACKET,
    {
        let mut sent: Option<Vec<u8>> = None;
        if self.message_count > 0 {
            proof {
                blocks_len(self.payloads@);
            }
            let session = self.current_session.unwrap();
            let first = self.first_sequence_number.unwrap();
            let header = Header::new(session, first, self.message_count as u16);
            let mut datagram: Vec<u8> = Vec::new();
            header.encode(&mut datagram);
            let held = buffer_slice(&self.packet);
            datagram.extend_from_slice(&held[HEADER_LEN..held.len()]);
            proof {
                assert(held@.subrange(HEADER_LEN as int, held@.len() as int) =~= held@.skip(
                    HEADER_LEN as int,
                ));
                assert(datagram@ =~= self@.datagram());
            }
            buffer_truncate(&mut self.packet, HEADER_LEN);
            self.message_count = 0;
            self.current_session = None;
            self.first_sequence_number = None;
            self.payloads = Ghost(Seq::empty());
            assert(buffer_bytes(&self.packet).skip(HEADER_LEN as int) =~= blocks(Seq::empty()));
            sent = Some(datagram);
        }
        self.next_flush = now.saturating_add(self.flush_interval);
        assert(self.payloads@ =~= Seq::<Seq<u8>>::empty());
        sent
    }

    /// The timer step of the publisher's loop. At or after the deadline this is
    /// `flush`: whatever is buffered is emitted at once. Before the deadline
    /// nothing happens.
    pub fn poll(&mut self, now: u64) -> (sent: Option<Vec<u8>>)
        requires
            old(self).wf(),
        ensures
            final(self).wf(),
            now < old(self)@.next_flush ==> sent is None && final(self)@ == old(self)@,
            now >= old(self)@.next_flush ==> final(self)@ == old(self)@.flushed(now),
            now >= old(self)@.next_flush && old(self)@.payloads.len() > 0 ==> sent is Some
                && sent->0@ == old(self)@.datagram(),
            now >= old(self)@.next_flush && old(self)@.payloads.len() == 0 ==> sent is None,
            sent is Some ==> sent->0@.len() <= MAX_PACKET,
    {
        if self.due(now) {
            self.flush(now)
        } else {
            None
        }
    }

    /// Takes one sequenced payload. Where the buffer holds messages of another
    /// session, or the payload's block would carry the datagram beyond
    /// `MAX_PACKET`, the buffer is flushed first and the datagram is returned.
    /// Then the block is appended; the first message of a datagram sets its
    /// session and first sequence number.
    pub fn enqueue(&mut self, event: SequencedEvent, now: u64) -> (sent: Option<Vec<u8>>)
        requires
            old(self).wf(),
            event.payload_view().len() <= MAX_PAYLOAD,
        ensures
            final(self).wf(),
            final(self)@ == old(self)@.enqueued(
                event.session_id,
                event.sequence_number,
                event.payload_view(),
                now,
            ),
            old(self)@.flushes_before(event.session_id, event.payload_view()) ==> sent is Some
                && sent->0@ == old(self)@.datagram(),
            !old(self)@.flushes_before(event.session_id, event.payload_view()) ==> sent is None,
            sent is Some ==> sent->0@.len() <= MAX_PACKET,
    {
        let payload = payload_slice(&event.payload);
        let mut sent: Option<Vec<u8>> = None;
        if self.message_count > 0 {
            let session = self.current_session.unwrap();
            let same = same_session(&session, &event.session_id);
            proof {
                if same {
                    assert(session =~= event.session_id);
                }
            }
            if !same || buffer_slice(&self.packet).len() + 2 + payload.len() > MAX_PACKET {
                sent = self.flush(now);
            }
        }
        if self.message_count == 0 {
            self.current_session = Some(event.session_id);
            self.first_sequence_number = Some(event.sequence_number);
        }
        proof {
            blocks_push(self.payloads@, payload@);
            blocks_len(self.payloads@);
        }
        let ghost before = buffer_bytes(&self.packet);
        buffer_put_u16(&mut self.packet, payload.len() as u16);
        buffer_put_slice(&mut self.packet, payload);
        self.message_count = self.message_count + 1;
        self.payloads = Ghost(self.payloads@.push(payload@));
        proof {
            assert(buffer_bytes(&self.packet) =~= before + block(payload@));
            assert(buffer_bytes(&self.packet).skip(HEADER_LEN as int) =~= before.skip(
                HEADER_LEN as int,
            ) + block(payload@));
        }
        sent
    }
}

} // verus!
