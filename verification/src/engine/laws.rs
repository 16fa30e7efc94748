//! What holds of every run of the publisher, whatever is fed to it: datagrams
//! never exceed the packet limit, and a receiver reads back from them exactly
//! the payloads that went in, in order.

use crate::engine::publisher::PublisherView;
use crate::wire::laws::frame_parses_back;
use crate::wire::mold::{
    blocks, blocks_len, blocks_push, payloads_of, SessionID, MAX_PACKET, MAX_PAYLOAD,
};
use vstd::prelude::*;

verus! {

/// One sequenced payload as the publisher sees it, and the time at which it is
/// enqueued.
pub ghost struct Arrival {
    pub session: SessionID,
    pub sequence_number: u64,
    pub payload: Seq<u8>,
    pub at: u64,
}

/// The publisher's state after it was fed `arrivals`, in order.
pub open spec fn state_after(start: PublisherView, arrivals: Seq<Arrival>) -> PublisherView
    decreases arrivals.len(),
{
    if arrivals.len() == 0 {
        start
    } else {
        let a = arrivals.last();
        state_after(start, arrivals.drop_last()).enqueued(
            a.session,
            a.sequence_number,
            a.payload,
            a.at,
        )
    }
}

/// The datagrams that the publisher emitted while it was fed `arrivals`.
pub open spec fn emitted(start: PublisherView, arrivals: Seq<Arrival>) -> Seq<Seq<u8>>
    decreases arrivals.len(),
{
    if arrivals.len() == 0 {
        Seq::empty()
    } else {
        let a = arrivals.last();
        let before = state_after(start, arrivals.drop_last());
        if before.flushes_before(a.session, a.payload) {
            emitted(start, arrivals.drop_last()).push(before.datagram())
        } else {
            emitted(start, arrivals.drop_last())
        }
    }
}

/// The payloads that went in.
pub open spec fn payloads_in(arrivals: Seq<Arrival>) -> Seq<Seq<u8>> {
    Seq::new(arrivals.len(), |i: int| arrivals[i].payload)
}

/// The block payloads that a receiver reads from some datagrams, one datagram
/// after the other.
pub open spec fn received(datagrams: Seq<Seq<u8>>) -> Seq<Seq<u8>>
    decreases datagrams.len(),
{
    if datagrams.len() == 0 {
        Seq::empty()
    } else {
        received(datagrams.drop_last()) + payloads_of(datagrams.last())
    }
}

/// What is read from some datagrams and one more is what is read from the
/// former, then what is read from the latter.
proof fn received_push(datagrams: Seq<Seq<u8>>, datagram: Seq<u8>)
    ensures
        received(datagrams.push(datagram)) == received(datagrams) + payloads_of(datagram),
{
    assert(datagrams.push(datagram).drop_last() =~= datagrams);
}

/// One step of the publisher keeps its state valid, emits no datagram beyond the
/// packet limit, and loses, adds or reorders no payload.
proof fn enqueue_step(before: PublisherView, a: Arrival)
    requires
        before.valid(),
        a.payload.len() <= MAX_PAYLOAD,
    ensures
        before.enqueued(a.session, a.sequence_number, a.payload, a.at).valid(),
        before.flushes_before(a.session, a.payload) ==> {
            &&& before.datagram().len() <= MAX_PACKET
            &&& payloads_of(before.datagram()) == before.payloads
            &&& before.enqueued(a.session, a.sequence_number, a.payload, a.at).payloads == seq![
                a.payload,
            ]
        },
        !before.flushes_before(a.session, a.payload) ==> before.enqueued(
            a.session,
            a.sequence_number,
            a.payload,
            a.at,
        ).payloads == before.payloads.push(a.payload),
{
    let after = before.enqueued(a.session, a.sequence_number, a.payload, a.at);
    blocks_len(before.payloads);
    if before.flushes_before(a.session, a.payload) {
        frame_parses_back(before.session->0, before.first_sequence->0, before.payloads);
        blocks_push(Seq::empty(), a.payload);
        assert(after.payloads =~= seq![a.payload]);
        assert(blocks(Seq::<Seq<u8>>::empty()) =~= Seq::<u8>::empty());
    } else {
        blocks_push(before.payloads, a.payload);
    }
    assert forall|i: int| 0 <= i < after.payloads.len() implies (#[trigger] after.payloads[i]).len()
        <= MAX_PAYLOAD by {
        if i < after.payloads.len() - 1 {
            assert(after.payloads[i] == before.payloads[i]);
        }
    }
}

/// Size bound and conservation over a whole run: the state stays valid, every
/// emitted datagram has at most `MAX_PACKET` bytes, and what a receiver reads
/// from the emitted datagrams, followed by what is still buffered, is what was
/// buffered at the start followed by the payloads that went in.
pub proof fn publisher_conserves_payloads(start: PublisherView, arrivals: Seq<Arrival>)
    requires
        start.valid(),
        forall|i: int| 0 <= i < arrivals.len() ==> (#[trigger] arrivals[i]).payload.len()
            <= MAX_PAYLOAD,
    ensures
        state_after(start, arrivals).valid(),
        forall|i: int|
            0 <= i < emitted(start, arrivals).len() ==> (#[trigger] emitted(start, arrivals)[i]).len()
                <= MAX_PACKET,
        received(emitted(start, arrivals)) + state_after(start, arrivals).payloads
            == start.payloads + payloads_in(arrivals),
    decreases arrivals.len(),
{
    if arrivals.len() == 0 {
        assert(received(emitted(start, arrivals)) + state_after(start, arrivals).payloads
            =~= start.payloads + payloads_in(arrivals));
    } else {
        let earlier = arrivals.drop_last();
        let a = arrivals.last();
        let before = state_after(start, earlier);
        assert forall|i: int| 0 <= i < earlier.len() implies (#[trigger] earlier[i]).payload.len()
            <= MAX_PAYLOAD by {
            assert(earlier[i] == arrivals[i]);
        }
        publisher_conserves_payloads(start, earlier);
        enqueue_step(before, a);
        assert(payloads_in(arrivals) =~= payloads_in(earlier).push(a.payload));
        if before.flushes_before(a.session, a.payload) {
            received_push(emitted(start, earlier), before.datagram());
            assert(received(emitted(start, arrivals)) + state_after(start, arrivals).payloads
                =~= (received(emitted(start, earlier)) + before.payloads).push(a.payload));
        } else {
            assert(received(emitted(start, arrivals)) + state_after(start, arrivals).payloads
                =~= (received(emitted(start, earlier)) + before.payloads).push(a.payload));
        }
        assert((start.payloads + payloads_in(earlier)).push(a.payload) =~= start.payloads
            + payloads_in(arrivals));
    }
}

/// Framing roundtrip: feed a fresh publisher any non-empty stream of payloads of
/// at most `MAX_PAYLOAD` bytes each and flush it at the end. What a receiver reads
/// from the datagrams, taken in order, is the stream that went in.
pub proof fn framing_roundtrip(start: PublisherView, arrivals: Seq<Arrival>)
    requires
        start.valid(),
        start.payloads.len() == 0,
        arrivals.len() > 0,
        forall|i: int| 0 <= i < arrivals.len() ==> (#[trigger] arrivals[i]).payload.len()
            <= MAX_PAYLOAD,
    ensures
        state_after(start, arrivals).payloads.len() > 0,
        state_after(start, arrivals).datagram().len() <= MAX_PACKET,
        received(emitted(start, arrivals).push(state_after(start, arrivals).datagram()))
            == payloads_in(arrivals),
{
    let last = state_after(start, arrivals);
    publisher_conserves_payloads(start, arrivals);
    assert forall|i: int| 0 <= i < arrivals.drop_last().len() implies (
    #[trigger] arrivals.drop_last()[i]).payload.len() <= MAX_PAYLOAD by {
        assert(arrivals.drop_last()[i] == arrivals[i]);
    }
    publisher_conserves_payloads(start, arrivals.drop_last());
    enqueue_step(state_after(start, arrivals.drop_last()), arrivals.last());
    blocks_len(last.payloads);
    frame_parses_back(last.session->0, last.first_sequence->0, last.payloads);
    received_push(emitted(start, arrivals), last.datagram());
    assert(start.payloads + payloads_in(arrivals) =~= payloads_in(arrivals));
}

} // verus!
