//! The MoldUDP64 datagram: a 20-byte header, then length-prefixed message
//! blocks. All integers are big-endian.

use crate::wire::be::{
    append, array_of, array_of_view, be16, be16_bytes, be16_of_bytes, be64, be64_bytes, read_array,
    read_u16, u16_from_be, u16_to_be, u64_from_be, u64_to_be,
};
use crate::wire::error::WireError;
use vstd::prelude::*;

verus! {

/// Upper bound on the bytes of one datagram, header and blocks together.
pub const MAX_PACKET: usize = 1400;

/// Bytes of the frame header.
pub const HEADER_LEN: usize = 20;

/// Bytes of the length prefix of a message block.
pub const LENGTH_PREFIX: usize = 2;

/// The longest payload that fits a datagram of its own.
pub const MAX_PAYLOAD: usize = 1378;

/// Identifies a broadcast session.
pub type SessionID = [u8; 10];

/// A sequence number as it stands in the header.
pub type SequenceNumber = [u8; 8];

/// A message count as it stands in the header.
pub type MessageCount = [u8; 2];

/// A block length as it stands before a payload.
pub type MessageLength = [u8; 2];

/// The frame header: the session, the sequence number of the first message of
/// the datagram, and the number of messages in it.
#[derive(Debug, Clone, Copy, PartialEq, Eq)]
pub struct Header {
    pub session_id: SessionID,
    pub sequence_number: SequenceNumber,
    pub message_count: MessageCount,
}

/// The header of a retransmission request. It has the layout of `Header`; this
/// library only carries it.
#[derive(Debug, Clone, Copy, PartialEq, Eq)]
pub struct RequestPacket {
    pub message_count: MessageCount,
    pub sequence_number: SequenceNumber,
    pub session_id: SessionID,
}

/// One length-prefixed payload.
#[derive(Debug, Clone, PartialEq, Eq)]
pub struct MessageBlock {
    pub message_length: MessageLength,
    pub message_data: Vec<u8>,
}

/// A whole datagram, taken apart.
#[derive(Debug, Clone, PartialEq, Eq)]
pub struct Packet {
    pub header: Header,
    pub message_blocks: Vec<MessageBlock>,
}

/// A payload with its length before it.
pub open spec fn block(payload: Seq<u8>) -> Seq<u8> {
    be16_bytes(payload.len() as u16) + payload
}

/// The blocks of some payloads, one after the other.
pub open spec fn blocks(payloads: Seq<Seq<u8>>) -> Seq<u8>
    decreases payloads.len(),
{
    if payloads.len() == 0 {
        Seq::empty()
    } else {
        blocks(payloads.drop_last()) + block(payloads.last())
    }
}

/// The datagram that carries `payloads` under `session`, the first of them
/// numbered `first_sequence`.
pub open spec fn frame(session: Seq<u8>, first_sequence: u64, payloads: Seq<Seq<u8>>) -> Seq<u8> {
    session + be64_bytes(first_sequence) + be16_bytes(payloads.len() as u16) + blocks(payloads)
}

/// The payloads of the message blocks that stand at the front of `body`, at most
/// `count` of them. Reading stops before a block whose length prefix or payload
/// is cut short.
pub open spec fn split_blocks(body: Seq<u8>, count: nat) -> Seq<Seq<u8>>
    decreases count,
{
    if count == 0 || body.len() < 2 {
        Seq::empty()
    } else {
        let n = be16(body.subrange(0, 2));
        if body.len() - 2 < n {
            Seq::empty()
        } else {
            seq![body.subrange(2, 2 + n)] + split_blocks(body.skip(2 + n), (count - 1) as nat)
        }
    }
}

/// Appending a payload appends its block.
pub proof fn blocks_push(payloads: Seq<Seq<u8>>, payload: Seq<u8>)
    ensures
        blocks(payloads.push(payload)) == blocks(payloads) + block(payload),
{
    assert(payloads.push(payload).drop_last() =~= payloads);
}

/// Every block takes at least the two bytes of its length prefix.
pub proof fn blocks_len(payloads: Seq<Seq<u8>>)
    ensures
        blocks(payloads).len() >= 2 * payloads.len(),
    decreases payloads.len(),
{
    if payloads.len() > 0 {
        blocks_len(payloads.drop_last());
    }
}

impl Header {
    /// The 20 bytes of the header.
    pub open spec fn wire(self) -> Seq<u8> {
        self.session_id@ + self.sequence_number@ + self.message_count@
    }

    /// The header that the first 20 bytes of `bytes` spell.
    pub open spec fn parse(bytes: Seq<u8>) -> Self
        recommends
            bytes.len() >= HEADER_LEN,
    {
        Header {
            session_id: array_of::<10>(bytes.subrange(0, 10)),
            sequence_number: array_of::<8>(bytes.subrange(10, 18)),
            message_count: array_of::<2>(bytes.subrange(18, 20)),
        }
    }

    /// The sequence number of the first message, as a number.
    pub open spec fn spec_first_sequence(self) -> u64 {
        be64(self.sequence_number@) as u64
    }

    /// The message count, as a number.
    pub open spec fn spec_count(self) -> u16 {
        be16(self.message_count@) as u16
    }

    /// The header of a datagram of `count` messages under `session_id`, the
    /// first numbered `first_sequence`.
    pub fn new(session_id: SessionID, first_sequence: u64, count: u16) -> (h: Self)
        ensures
            h.session_id == session_id,
            h.sequence_number@ == be64_bytes(first_sequence),
            h.message_count@ == be16_bytes(count),
            h.spec_first_sequence() == first_sequence,
            h.spec_count() == count,
            h.wire() == session_id@ + be64_bytes(first_sequence) + be16_bytes(count),
    {
        Header {
            session_id,
            sequence_number: u64_to_be(first_sequence),
            message_count: u16_to_be(count),
        }
    }

    /// The sequence number of the first message of the datagram.
    pub fn first_sequence(&self) -> (n: u64)
        ensures
            n == self.spec_first_sequence(),
    {
        u64_from_be(self.sequence_number)
    }

    /// The number of messages that the datagram announces.
    pub fn count(&self) -> (n: u16)
        ensures
            n == self.spec_count(),
    {
        u16_from_be(self.message_count)
    }

    /// Appends the header's 20 bytes to `out`.
    pub fn encode(&self, out: &mut Vec<u8>)
        ensures
            final(out)@ == old(out)@ + self.wire(),
    {
        append::<10>(out, &self.session_id);
        append::<8>(out, &self.sequence_number);
        append::<2>(out, &self.message_count);
        assert(out@ =~= old(out)@ + self.wire());
    }
}

/// The payloads of the whole blocks of a datagram of at least 20 bytes: those
/// that follow the header, as many as it announces and no more than are there.
pub open spec fn payloads_of(datagram: Seq<u8>) -> Seq<Seq<u8>>
    recommends
        datagram.len() >= HEADER_LEN,
{
    split_blocks(datagram.skip(HEADER_LEN as int), Header::parse(datagram).spec_count() as nat)
}

/// Reads the 20-byte prefix of a datagram.
pub fn parse_header(bytes: &[u8]) -> (r: Result<Header, WireError>)
    ensures
        bytes@.len() < HEADER_LEN ==> r == Err::<Header, WireError>(WireError::MalformedFrame),
        bytes@.len() >= HEADER_LEN ==> r == Ok::<Header, WireError>(Header::parse(bytes@)),
{
    if bytes.len() < HEADER_LEN {
        return Err(WireError::MalformedFrame);
    }
    let h = Header {
        session_id: read_array::<10>(bytes, 0),
        sequence_number: read_array::<8>(bytes, 10),
        message_count: read_array::<2>(bytes, 18),
    };
    proof {
        let p = Header::parse(bytes@);
        array_of_view::<10>(bytes@.subrange(0, 10));
        array_of_view::<8>(bytes@.subrange(10, 18));
        array_of_view::<2>(bytes@.subrange(18, 20));
        assert(h.session_id@ =~= p.session_id@);
        assert(h.session_id == p.session_id);
        assert(h.sequence_number@ =~= p.sequence_number@);
        assert(h.sequence_number == p.sequence_number);
        assert(h.message_count@ =~= p.message_count@);
        assert(h.message_count == p.message_count);
    }
    Ok(h)
}

/// Where the payload of the block at `offset` lies in `bytes`, given that
/// `left` blocks are still expected: `None` where no block is expected or the
/// block is cut short.
pub fn next_block(bytes: &[u8], offset: usize, left: usize) -> (r: Option<(usize, usize)>)
    requires
        offset <= bytes@.len(),
    ensures
        r is None <==> split_blocks(bytes@.skip(offset as int), left as nat).len() == 0,
        r matches Some((start, end)) ==> {
            &&& start == offset + 2
            &&& start <= end <= bytes@.len()
            &&& end - start == be16(bytes@.subrange(offset as int, offset + 2))
            &&& split_blocks(bytes@.skip(offset as int), left as nat) == seq![
                bytes@.subrange(start as int, end as int),
            ] + split_blocks(bytes@.skip(end as int), (left - 1) as nat)
        },
{
    let ghost body = bytes@.skip(offset as int);
    if left == 0 || bytes.len() - offset < 2 {
        return None;
    }
    let n = read_u16(bytes, offset) as usize;
    assert(body.subrange(0, 2) =~= bytes@.subrange(offset as int, offset + 2));
    let start = offset + 2;
    if bytes.len() - start < n {
        return None;
    }
    let end = start + n;
    proof {
        assert(body.subrange(2, 2 + n) =~= bytes@.subrange(start as int, end as int));
        assert(body.skip(2 + n) =~= bytes@.skip(end as int));
    }
    Some((start, end))
}

impl MessageBlock {
    /// The block as it stands on the wire.
    pub open spec fn wire(self) -> Seq<u8> {
        self.message_length@ + self.message_data@
    }

    /// Whether the length prefix says how long the payload is.
    pub open spec fn consistent(self) -> bool {
        &&& self.message_data@.len() <= u16::MAX
        &&& self.message_length@ == be16_bytes(self.message_data@.len() as u16)
    }
}

/// The wire bytes of some blocks, one after the other.
pub open spec fn blocks_wire(bs: Seq<MessageBlock>) -> Seq<u8>
    decreases bs.len(),
{
    if bs.len() == 0 {
        Seq::empty()
    } else {
        blocks_wire(bs.drop_last()) + bs.last().wire()
    }
}

impl Packet {
    /// The payloads of the packet's blocks, in order.
    pub open spec fn payloads(self) -> Seq<Seq<u8>> {
        Seq::new(self.message_blocks@.len(), |i: int| self.message_blocks@[i].message_data@)
    }

    /// The datagram that the packet stands for.
    pub open spec fn wire(self) -> Seq<u8> {
        self.header.wire() + blocks_wire(self.message_blocks@)
    }

    /// Whether the header counts the blocks and each length prefix says how long
    /// its payload is.
    pub open spec fn consistent(self) -> bool {
        &&& self.message_blocks@.len() <= u16::MAX
        &&& self.header.spec_count() == self.message_blocks@.len()
        &&& forall|i: int|
            0 <= i < self.message_blocks@.len() ==> (#[trigger] self.message_blocks@[i]).consistent()
    }

    /// The datagram: the header, then each block's length and payload.
    pub fn to_bytes(&self) -> (bytes: Vec<u8>)
        ensures
            bytes@ == self.wire(),
    {
        let mut bytes: Vec<u8> = Vec::new();
        self.header.encode(&mut bytes);
        let mut i: usize = 0;
        while i < self.message_blocks.len()
            invariant
                i <= self.message_blocks@.len(),
                bytes@ == self.header.wire() + blocks_wire(self.message_blocks@.subrange(0, i as int)),
            decreases self.message_blocks@.len() - i,
        {
            let ghost done = self.message_blocks@.subrange(0, i as int);
            let ghost next = self.message_blocks@.subrange(0, i + 1);
            let b = &self.message_blocks[i];
            append::<2>(&mut bytes, &b.message_length);
            bytes.extend_from_slice(b.message_data.as_slice());
            proof {
                assert(next.drop_last() =~= done);
                assert(next.last() == self.message_blocks@[i as int]);
                assert(bytes@ =~= self.header.wire() + blocks_wire(next));
            }
            i += 1;
        }
        assert(self.message_blocks@.subrange(0, i as int) =~= self.message_blocks@);
        bytes
    }

    /// Takes a datagram apart. Fails with `MalformedFrame` where `bytes` is
    /// shorter than a header, and with `TruncatedBlock` where fewer whole blocks
    /// follow the header than it announces. Bytes after the last announced block
    /// are ignored.
    pub fn from_bytes(bytes: &[u8]) -> (r: Result<Packet, WireError>)
        ensures
            bytes@.len() < HEADER_LEN ==> r == Err::<Packet, WireError>(WireError::MalformedFrame),
            bytes@.len() >= HEADER_LEN ==> {
                let header = Header::parse(bytes@);
                let found = split_blocks(bytes@.skip(HEADER_LEN as int), header.spec_count() as nat);
                if found.len() < header.spec_count() {
                    r == Err::<Packet, WireError>(WireError::TruncatedBlock)
                } else {
                    &&& r is Ok
                    &&& r->Ok_0.header == header
                    &&& r->Ok_0.payloads() == found
                    &&& r->Ok_0.consistent()
                }
            },
    {
        let header = match parse_header(bytes) {
            Ok(h) => h,
            Err(e) => {
                return Err(e);
            },
        };
        let count = header.count() as usize;
        let ghost found = split_blocks(bytes@.skip(HEADER_LEN as int), count as nat);
        let mut message_blocks: Vec<MessageBlock> = Vec::new();
        let mut offset: usize = HEADER_LEN;
        let mut i: usize = 0;
        while i < count
            invariant
                i <= count,
                count <= u16::MAX,
                count == header.spec_count(),
                header == Header::parse(bytes@),
                HEADER_LEN <= offset <= bytes@.len(),
                message_blocks@.len() == i,
                found == split_blocks(bytes@.skip(HEADER_LEN as int), count as nat),
                found == Seq::new(i as nat, |k: int| message_blocks@[k].message_data@)
                    + split_blocks(bytes@.skip(offset as int), (count - i) as nat),
                forall|k: int| 0 <= k < i ==> (#[trigger] message_blocks@[k]).consistent(),
            decreases count - i,
        {
            let ghost done = Seq::new(i as nat, |k: int| message_blocks@[k].message_data@);
            match next_block(bytes, offset, count - i) {
                None => {
                    assert(found =~= done);
                    assert(found.len() == i);
                    return Err(WireError::TruncatedBlock);
                },
                Some((start, end)) => {
                    let payload = &bytes[start..end];
                    let mut message_data: Vec<u8> = Vec::new();
                    message_data.extend_from_slice(payload);
                    let message_length = read_array::<2>(bytes, offset);
                    proof {
                        let n = be16(bytes@.subrange(offset as int, offset + 2));
                        assert(message_data@.len() == n);
                        assert(0 <= n <= u16::MAX);
                        crate::wire::be::be16_of_bytes(n as u16);
                        crate::wire::be::be16_unique(be16_bytes(n as u16), message_length@);
                    }
                    let ghost before = message_blocks@;
                    message_blocks.push(MessageBlock { message_length, message_data });
                    proof {
                        let now = Seq::new((i + 1) as nat, |k: int| message_blocks@[k].message_data@);
                        let last = seq![bytes@.subrange(start as int, end as int)];
                        assert(message_blocks@[i as int].message_data@ == last[0]);
                        assert forall|k: int| 0 <= k < i + 1 implies now[k] == (done + last)[k] by {
                            if k < i {
                                assert(message_blocks@[k] == before[k]);
                            }
                        }
                        assert(now =~= done + last);
                        assert(found =~= now + split_blocks(
                            bytes@.skip(end as int),
                            (count - i - 1) as nat,
                        ));
                    }
                    offset = end;
                    i += 1;
                },
            }
        }
        let packet = Packet { header, message_blocks };
        proof {
            assert(found =~= packet.payloads());
        }
        Ok(packet)
    }
}

} // verus!
