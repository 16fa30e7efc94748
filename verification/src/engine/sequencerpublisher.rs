//! Sequencer and publisher in one stage: payloads go in, datagrams come out.

use crate::engine::publisher::{Publisher, PublisherView};
use crate::engine::sequencer::{Event, Sequencer};

use crate::wire::mold::{SessionID, MAX_PACKET, MAX_PAYLOAD};
use vstd::prelude::*;

verus! {

/// Numbers payloads and batches them into datagrams.
pub struct SequencerPublisher {
    sequencer: Sequencer,
    publisher: Publisher,
}

impl SequencerPublisher {
    /// The sequencer.
    pub closed spec fn sequencer(&self) -> Sequencer {
        self.sequencer
    }

    /// What the publisher holds.
    pub closed spec fn batch(&self) -> PublisherView {
        self.publisher@
    }

    /// The invariant of the stage: the publisher's buffer is in order, and
    /// while it holds messages, the first sequence number of the datagram plus
    /// the message count is the next sequence number of the datagram's session.
    /// So the header's first sequence number plus its count, less one, is the
    /// sequence number of the datagram's last message.
    pub closed spec fn wf(&self) -> bool {
        &&& self.publisher.wf()
        &&& self.publisher@.payloads.len() > 0 ==> self.publisher@.first_sequence->0
            + self.publisher@.payloads.len() == self.sequencer.session_table.spec_next(
            self.publisher@.session->0@,
        )
    }

    /// What `wf` says of the datagram under construction.
    pub proof fn header_counts(&self)
        requires
            self.wf(),
        ensures
            self.batch().valid(),
            self.batch().payloads.len() > 0 ==> self.batch().first_sequence->0
                + self.batch().payloads.len() == self.sequencer().session_table.spec_next(
                self.batch().session->0@,
            ),
    {
        self.publisher.wf_valid();
    }

    /// A stage with a fresh session table and an empty buffer.
    pub fn new(flush_interval: u64, now: u64) -> (stage: Self)
        ensures
            stage.wf(),
            forall|tag: Seq<u8>| stage.sequencer().session_table.spec_next(tag) == 1,
            stage.sequencer().session_table.spec_current()@ == Seq::new(10, |i: int| 0u8),
            stage.batch() == (PublisherView {
                session: None,
                first_sequence: None,
                payloads: Seq::empty(),
                next_flush: crate::engine::publisher::deadline(now, flush_interval),
                flush_interval,
            }),
    {
        SequencerPublisher { sequencer: Sequencer::new(), publisher: Publisher::new(flush_interval, now) }
    }

    /// Makes `session_id` the session of the payloads to come.
    pub fn set_session(&mut self, session_id: SessionID)
        requires
            old(self).wf(),
        ensures
            final(self).wf(),
            final(self).batch() == old(self).batch(),
            final(self).sequencer().session_table.spec_current() == session_id,
            forall|tag: Seq<u8>|
                final(self).sequencer().session_table.spec_next(tag) == old(self).sequencer().session_table.spec_next(tag),
    {
        self.sequencer.session_table.set_current_session(session_id);
    }

    /// Whether the current session has a sequence number left to give.
    pub fn has_next(&self) -> (left: bool)
        ensures
            left == (self.sequencer().spec_next() < u64::MAX),
    {
        self.sequencer.has_next()
    }

    /// Emits the datagram under construction, if it holds any message.
    pub fn flush(&mut self, now: u64) -> (sent: Option<Vec<u8>>)
        requires
            old(self).wf(),
        ensures
            final(self).wf(),
            final(self).sequencer() == old(self).sequencer(),
            final(self).batch() == old(self).batch().flushed(now),
            old(self).batch().payloads.len() == 0 ==> sent is None,
            old(self).batch().payloads.len() > 0 ==> sent is Some && sent->0@ == old(self).batch().datagram(),
            sent is Some ==> sent->0@.len() <= MAX_PACKET,
    {
        self.publisher.flush(now)
    }

    /// One turn of the stage's loop at time `now`, with the payload that was
    /// popped from the input, if any. First the timer: at or after the flush
    /// deadline the buffer is flushed. Then the payload: it is given the current
    /// session and the next sequence number and enqueued, which flushes the
    /// buffer first where the session changed or the datagram is full. At most
    /// one datagram comes out of a turn.
    pub fn step(&mut self, now: u64, event: Option<Event>) -> (sent: Option<Vec<u8>>)
        requires
            old(self).wf(),
            event is Some ==> crate::engine::buffer::payload_bytes(&event->0.payload).len()
                <= MAX_PAYLOAD && old(self).sequencer().spec_next() < u64::MAX,
        ensures
            final(self).wf(),
            final(self).batch() == Self::stepped(
                old(self).batch(),
                old(self).sequencer(),
                now,
                event,
            ),
            Self::sent_by_step(old(self).batch(), old(self).sequencer(), now, event) is None
                ==> sent is None,
            Self::sent_by_step(old(self).batch(), old(self).sequencer(), now, event) is Some
                ==> sent is Some && sent->0@ == Self::sent_by_step(
                old(self).batch(),
                old(self).sequencer(),
                now,
                event,
            )->0,
            sent is Some ==> sent->0@.len() <= MAX_PACKET,
            event is Some ==> final(self).sequencer().spec_next() == old(self).sequencer().spec_next() + 1,
            event is None ==> final(self).sequencer() == old(self).sequencer(),
            final(self).sequencer().session_table.spec_current() == old(self).sequencer().session_table.spec_current(),
            forall|other: Seq<u8>|
                other != old(self).sequencer().session_table.spec_current()@ ==> final(self).sequencer().session_table.spec_next(other) == old(self).sequencer().session_table.spec_next(other),
    {
        let timed = self.publisher.poll(now);
        match event {
            None => timed,
            Some(event) => {
                let stamped = self.sequencer.sequence(event);
                let full = self.publisher.enqueue(stamped, now);
                match timed {
                    Some(datagram) => Some(datagram),
                    None => full,
                }
            },
        }
    }

    /// The buffer after the timer step at `now`.
    pub open spec fn timed(batch: PublisherView, now: u64) -> PublisherView {
        if now >= batch.next_flush {
            batch.flushed(now)
        } else {
            batch
        }
    }

    /// The buffer after a turn.
    pub open spec fn stepped(
        batch: PublisherView,
        sequencer: Sequencer,
        now: u64,
        event: Option<Event>,
    ) -> PublisherView {
        match event {
            None => Self::timed(batch, now),
            Some(e) => Self::timed(batch, now).enqueued(
                sequencer.session_table.spec_current(),
                sequencer.spec_next(),
                crate::engine::buffer::payload_bytes(&e.payload),
                now,
            ),
        }
    }

    /// The datagram that a turn emits.
    pub open spec fn sent_by_step(
        batch: PublisherView,
        sequencer: Sequencer,
        now: u64,
        event: Option<Event>,
    ) -> Option<Seq<u8>> {
        if now >= batch.next_flush && batch.payloads.len() > 0 {
            Some(batch.datagram())
        } else if event is Some && Self::timed(batch, now).flushes_before(
            sequencer.session_table.spec_current(),
            crate::engine::buffer::payload_bytes(&event->0.payload),
        ) {
            Some(Self::timed(batch, now).datagram())
        } else {
            None
        }
    }
}

} // verus!
