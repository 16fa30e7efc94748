//! Laws of the datagram layout: what is framed is read back.

use crate::wire::be::{array_of_view, be16_bytes, be16_of_bytes, be64_bytes, be64_of_bytes};
use crate::wire::mold::{
    block, blocks, blocks_wire, frame, payloads_of, split_blocks, Header, MessageBlock, Packet,
    SessionID, HEADER_LEN,
};
use vstd::prelude::*;

verus! {

/// The blocks of some payloads start with the block of the first.
pub proof fn blocks_front(payloads: Seq<Seq<u8>>)
    requires
        payloads.len() > 0,
    ensures
        blocks(payloads) == block(payloads[0]) + blocks(payloads.drop_first()),
    decreases payloads.len(),
{
    if payloads.len() == 1 {
        assert(payloads.drop_last() =~= Seq::<Seq<u8>>::empty());
        assert(payloads.drop_first() =~= Seq::<Seq<u8>>::empty());
        assert(blocks(payloads.drop_last()) =~= Seq::<u8>::empty());
        assert(blocks(payloads) =~= block(payloads[0]) + blocks(payloads.drop_first()));
    } else {
        blocks_front(payloads.drop_last());
        assert(payloads.drop_first().drop_last() =~= payloads.drop_last().drop_first());
        assert(payloads.drop_last()[0] == payloads[0]);
        assert(payloads.drop_first().last() == payloads.last());
        assert(blocks(payloads) =~= block(payloads[0]) + blocks(payloads.drop_first()));
    }
}

/// Splitting the blocks of some payloads gives the payloads back, whatever
/// follows the blocks.
pub proof fn split_inverts_blocks(payloads: Seq<Seq<u8>>, rest: Seq<u8>)
    requires
        forall|i: int| 0 <= i < payloads.len() ==> (#[trigger] payloads[i]).len() <= u16::MAX,
    ensures
        split_blocks(blocks(payloads) + rest, payloads.len()) == payloads,
    decreases payloads.len(),
{
    if payloads.len() == 0 {
        assert(split_blocks(blocks(payloads) + rest, 0) =~= payloads);
    } else {
        let first = payloads[0];
        let tail = payloads.drop_first();
        let body = blocks(payloads) + rest;
        blocks_front(payloads);
        be16_of_bytes(first.len() as u16);
        assert(body.subrange(0, 2) =~= be16_bytes(first.len() as u16));
        assert(body.subrange(2, 2 + first.len() as int) =~= first);
        assert(body.skip(2 + first.len() as int) =~= blocks(tail) + rest);
        assert forall|i: int| 0 <= i < tail.len() implies (#[trigger] tail[i]).len()
            <= u16::MAX by {
            assert(tail[i] == payloads[i + 1]);
        }
        split_inverts_blocks(tail, rest);
        assert(seq![first] + tail =~= payloads);
    }
}

/// A receiver reads from a datagram what the publisher framed: the session, the
/// first sequence number, the message count and the payloads in order.
pub proof fn frame_parses_back(session: SessionID, first_sequence: u64, payloads: Seq<Seq<u8>>)
    requires
        payloads.len() <= u16::MAX,
        forall|i: int| 0 <= i < payloads.len() ==> (#[trigger] payloads[i]).len() <= u16::MAX,
    ensures
        frame(session@, first_sequence, payloads).len() == HEADER_LEN + blocks(payloads).len(),
        Header::parse(frame(session@, first_sequence, payloads)).session_id == session,
        Header::parse(frame(session@, first_sequence, payloads)).spec_first_sequence()
            == first_sequence,
        Header::parse(frame(session@, first_sequence, payloads)).spec_count() == payloads.len(),
        payloads_of(frame(session@, first_sequence, payloads)) == payloads,
{
    let datagram = frame(session@, first_sequence, payloads);
    let header = Header::parse(datagram);
    assert(datagram.subrange(0, 10) =~= session@);
    assert(datagram.subrange(10, 18) =~= be64_bytes(first_sequence));
    assert(datagram.subrange(18, 20) =~= be16_bytes(payloads.len() as u16));
    array_of_view::<10>(session@);
    array_of_view::<8>(be64_bytes(first_sequence));
    array_of_view::<2>(be16_bytes(payloads.len() as u16));
    assert(header.session_id =~= session);
    be64_of_bytes(first_sequence);
    be16_of_bytes(payloads.len() as u16);
    assert(datagram.skip(HEADER_LEN as int) =~= blocks(payloads) + Seq::<u8>::empty());
    split_inverts_blocks(payloads, Seq::empty());
}

/// The wire bytes of blocks whose length prefixes are right are the blocks of
/// their payloads.
pub proof fn consistent_blocks(bs: Seq<MessageBlock>)
    requires
        forall|i: int| 0 <= i < bs.len() ==> (#[trigger] bs[i]).consistent(),
    ensures
        blocks_wire(bs) == blocks(Seq::new(bs.len(), |i: int| bs[i].message_data@)),
    decreases bs.len(),
{
    let payloads = Seq::new(bs.len(), |i: int| bs[i].message_data@);
    if bs.len() > 0 {
        let fewer = bs.drop_last();
        assert forall|i: int| 0 <= i < fewer.len() implies (#[trigger] fewer[i]).consistent() by {
            assert(fewer[i] == bs[i]);
        }
        consistent_blocks(fewer);
        assert(payloads.drop_last() =~= Seq::new(fewer.len(), |i: int| fewer[i].message_data@));
        assert(payloads.last() == bs.last().message_data@);
    }
}

/// Packet roundtrip: taking apart the bytes of a consistent packet gives its
/// header and the payloads of its blocks.
pub proof fn packet_parses_back(packet: Packet)
    requires
        packet.consistent(),
    ensures
        packet.wire().len() >= HEADER_LEN,
        Header::parse(packet.wire()) == packet.header,
        payloads_of(packet.wire()) == packet.payloads(),
{
    let bytes = packet.wire();
    let header = packet.header;
    let parsed = Header::parse(bytes);
    consistent_blocks(packet.message_blocks@);
    assert(bytes.subrange(0, 10) =~= header.session_id@);
    assert(bytes.subrange(10, 18) =~= header.sequence_number@);
    assert(bytes.subrange(18, 20) =~= header.message_count@);
    array_of_view::<10>(header.session_id@);
    array_of_view::<8>(header.sequence_number@);
    array_of_view::<2>(header.message_count@);
    assert(parsed.session_id =~= header.session_id);
    assert(parsed.sequence_number =~= header.sequence_number);
    assert(parsed.message_count =~= header.message_count);
    assert forall|i: int| 0 <= i < packet.payloads().len() implies (
    #[trigger] packet.payloads()[i]).len() <= u16::MAX by {
        assert(packet.message_blocks@[i].consistent());
    }
    assert(bytes.skip(HEADER_LEN as int) =~= blocks(packet.payloads()) + Seq::<u8>::empty());
    split_inverts_blocks(packet.payloads(), Seq::empty());
}

} // verus!
