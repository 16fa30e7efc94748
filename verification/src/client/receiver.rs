//! Turns one received datagram into typed events, in block order.

use crate::wire::error::WireError;
use crate::wire::itch::{decode_message, message_of, ItchEvent};
use crate::wire::mold::{
    next_block, parse_header, payloads_of, split_blocks, Header, HEADER_LEN,
};
use vstd::prelude::*;

verus! {

/// What one datagram held.
#[derive(Debug, Clone, PartialEq, Eq)]
pub struct Received {
    /// The frame header.
    pub header: Header,
    /// The events of the blocks that could be decoded, in block order.
    pub events: Vec<ItchEvent>,
    /// Whole blocks found after the header, decodable or not.
    pub blocks: usize,
    /// Whether fewer whole blocks were found than the header announces.
    pub truncated: bool,
}

/// The events that some block payloads decode to, in order. A payload that is
/// empty, carries an unknown tag or is shorter than its type's layout gives no
/// event and does not stop the others.
pub open spec fn events_of(payloads: Seq<Seq<u8>>) -> Seq<ItchEvent>
    decreases payloads.len(),
{
    if payloads.len() == 0 {
        Seq::empty()
    } else {
        let before = events_of(payloads.drop_last());
        match message_of(payloads.last()) {
            Ok(event) => before.push(event),
            Err(_) => before,
        }
    }
}

/// Parses one datagram. A datagram shorter than a header is refused with
/// `MalformedFrame`. Otherwise the blocks are read in order until the announced
/// count is reached or a block is cut short, and each block's payload is
/// decoded; blocks that do not decode are skipped.
pub fn parse_datagram(bytes: &[u8]) -> (r: Result<Received, WireError>)
    ensures
        bytes@.len() < HEADER_LEN ==> r == Err::<Received, WireError>(WireError::MalformedFrame),
        bytes@.len() >= HEADER_LEN ==> {
            &&& r is Ok
            &&& r->Ok_0.header == Header::parse(bytes@)
            &&& r->Ok_0.events@ == events_of(payloads_of(bytes@))
            &&& r->Ok_0.blocks == payloads_of(bytes@).len()
            &&& r->Ok_0.truncated == (payloads_of(bytes@).len() < Header::parse(
                bytes@,
            ).spec_count())
        },
{
    let header = match parse_header(bytes) {
        Ok(h) => h,
        Err(e) => {
            return Err(e);
        },
    };
    let count = header.count() as usize;
    let ghost found = payloads_of(bytes@);
    let ghost mut done: Seq<Seq<u8>> = Seq::empty();
    let mut events: Vec<ItchEvent> = Vec::new();
    let mut offset: usize = HEADER_LEN;
    let mut i: usize = 0;
    let mut truncated = false;
    while i < count && !truncated
        invariant
            i <= count,
            count == header.spec_count(),
            header == Header::parse(bytes@),
            HEADER_LEN <= offset <= bytes@.len(),
            found == payloads_of(bytes@),
            done.len() == i,
            events@ == events_of(done),
            !truncated ==> found == done + split_blocks(
                bytes@.skip(offset as int),
                (count - i) as nat,
            ),
            truncated ==> found == done && i < count,
        decreases count - i + if truncated { 0int } else { 1int },
    {
        match next_block(bytes, offset, count - i) {
            None => {
                assert(found =~= done);
                truncated = true;
            },
            Some((start, end)) => {
                let payload = &bytes[start..end];
                proof {
                    let next = done.push(payload@);
                    assert(next.drop_last() =~= done);
                    assert(next.last() == payload@);
                    assert(next =~= done + seq![payload@]);
                    assert(found =~= next + split_blocks(
                        bytes@.skip(end as int),
                        (count - i - 1) as nat,
                    ));
                    done = next;
                }
                match decode_message(payload) {
                    Ok(event) => {
                        events.push(event);
                    },
                    Err(_) => {},
                }
                offset = end;
                i += 1;
            },
        }
    }
    proof {
        if !truncated {
            assert(found =~= done);
        }
    }
    Ok(Received { header, events, blocks: i, truncated })
}

} // verus!
