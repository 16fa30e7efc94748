//! The typed payloads: fixed layouts, big-endian fields, a type tag in the first
//! byte. Timestamps are nanoseconds in a 48-bit field.

use crate::wire::be::{
    append, array_of, array_of_view, be16, be16_bytes, be16_of_bytes, be16_unique, be32, be32_bytes, be32_of_bytes,
    be32_unique, be48, be64, be64_bytes, be64_of_bytes, be64_unique, decode_u48, encode_u48,
    read_array, read_u16, read_u32, read_u64, u16_to_be, u32_to_be, u64_to_be,
};
use crate::wire::error::WireError;
use vstd::prelude::*;

verus! {

/// Type tag of a `TestBenchmark` message: the letter `b`.
pub const TAG_TEST_BENCHMARK: u8 = 0x62;

/// Type tag of an `AddOrder` message: the letter `A`.
pub const TAG_ADD_ORDER: u8 = 0x41;

/// Type tag of an `OrderExecutedMessage`: the letter `E`.
pub const TAG_ORDER_EXECUTED: u8 = 0x45;

/// Bytes that a `TestBenchmark` message takes on the wire.
pub const TEST_BENCHMARK_LEN: usize = 7;

/// Bytes that an `AddOrder` message takes on the wire.
pub const ADD_ORDER_LEN: usize = 36;

/// Bytes that an `OrderExecutedMessage` takes on the wire.
pub const ORDER_EXECUTED_LEN: usize = 31;

/// A latency probe: a tag and a timestamp.
#[derive(Debug, Clone, Copy, PartialEq, Eq)]
pub struct TestBenchmark {
    pub message_type: u8,
    pub timestamp: [u8; 6],
}

/// A new order resting in the book.
#[derive(Debug, Clone, Copy, PartialEq, Eq)]
pub struct AddOrder {
    pub message_type: u8,
    pub stock_locate: u16,
    pub tracking_number: u16,
    pub timestamp: [u8; 6],
    pub order_reference_number: u64,
    pub buy_sell_indicator: u8,
    pub shares: u32,
    pub stock: [u8; 8],
    pub price: u32,
}

/// An execution against a resting order.
#[derive(Debug, Clone, Copy, PartialEq, Eq)]
pub struct OrderExecutedMessage {
    pub message_type: u8,
    pub stock_locate: u16,
    pub tracking_number: u16,
    pub timestamp: [u8; 6],
    pub order_reference_number: u64,
    pub executed_shares: u32,
    pub match_number: u64,
}

/// A decoded message of one of the known types.
#[derive(Debug, Clone, Copy, PartialEq, Eq)]
pub enum ItchEvent {
    TestBenchmark(TestBenchmark),
    AddOrder(AddOrder),
    OrderExecutedMessage(OrderExecutedMessage),
}

/// The known message types.
#[derive(Debug, Clone, Copy, PartialEq, Eq, Structural)]
pub enum MessageType {
    TestBenchmark,
    AddOrder,
    OrderExecuted,
}

impl TestBenchmark {
    /// The seven bytes of the message: tag, then timestamp.
    pub open spec fn wire(self) -> Seq<u8> {
        seq![self.message_type] + self.timestamp@
    }

    /// The message that the first seven bytes of `bytes` spell.
    pub open spec fn parse(bytes: Seq<u8>) -> Self
        recommends
            bytes.len() >= TEST_BENCHMARK_LEN,
    {
        TestBenchmark { message_type: bytes[0], timestamp: array_of::<6>(bytes.subrange(1, 7)) }
    }

    /// A probe stamped with the low 48 bits of `timestamp`.
    pub fn new(timestamp: u64) -> (m: Self)
        ensures
            m.message_type == TAG_TEST_BENCHMARK,
            m.timestamp@ == crate::wire::be::be48_bytes(timestamp),
            be48(m.timestamp@) == timestamp % 0x1_0000_0000_0000,
    {
        TestBenchmark { message_type: TAG_TEST_BENCHMARK, timestamp: encode_u48(timestamp) }
    }

    /// The nanoseconds that a timestamp field holds.
    pub fn decode_timestamp(ts: [u8; 6]) -> (ns: u64)
        ensures
            ns == be48(ts@),
    {
        decode_u48(ts)
    }

    /// Appends the message's seven bytes to `out`.
    pub fn encode(&self, out: &mut Vec<u8>)
        ensures
            final(out)@ == old(out)@ + self.wire(),
    {
        out.push(self.message_type);
        append::<6>(out, &self.timestamp);
        assert(out@ =~= old(out)@ + self.wire());
    }

    /// Reads a message from the front of `bytes`; bytes after it are ignored.
    pub fn decode(bytes: &[u8]) -> (r: Result<Self, WireError>)
        ensures
            bytes@.len() < TEST_BENCHMARK_LEN ==> r == Err::<Self, WireError>(
                WireError::MalformedFrame,
            ),
            bytes@.len() >= TEST_BENCHMARK_LEN ==> r == Ok::<Self, WireError>(
                Self::parse(bytes@),
            ),
    {
        if bytes.len() < TEST_BENCHMARK_LEN {
            return Err(WireError::MalformedFrame);
        }
        let m = TestBenchmark { message_type: bytes[0], timestamp: read_array::<6>(bytes, 1) };
        proof {
            array_of_view::<6>(bytes@.subrange(1, 7));
            assert(m.timestamp@ =~= Self::parse(bytes@).timestamp@);
            assert(m.timestamp == Self::parse(bytes@).timestamp);
        }
        Ok(m)
    }
}

impl AddOrder {
    /// The 36 bytes of the message, field after field.
    pub open spec fn wire(self) -> Seq<u8> {
        seq![self.message_type] + be16_bytes(self.stock_locate) + be16_bytes(self.tracking_number)
            + self.timestamp@ + be64_bytes(self.order_reference_number)
            + seq![self.buy_sell_indicator] + be32_bytes(self.shares) + self.stock@ + be32_bytes(
            self.price,
        )
    }

    /// The message that the first 36 bytes of `bytes` spell.
    pub open spec fn parse(bytes: Seq<u8>) -> Self
        recommends
            bytes.len() >= ADD_ORDER_LEN,
    {
        AddOrder {
            message_type: bytes[0],
            stock_locate: be16(bytes.subrange(1, 3)) as u16,
            tracking_number: be16(bytes.subrange(3, 5)) as u16,
            timestamp: array_of::<6>(bytes.subrange(5, 11)),
            order_reference_number: be64(bytes.subrange(11, 19)) as u64,
            buy_sell_indicator: bytes[19],
            shares: be32(bytes.subrange(20, 24)) as u32,
            stock: array_of::<8>(bytes.subrange(24, 32)),
            price: be32(bytes.subrange(32, 36)) as u32,
        }
    }

    /// An `AddOrder` with the given fields, stamped with the low 48 bits of
    /// `timestamp`.
    pub fn new(
        stock_locate: u16,
        tracking_number: u16,
        timestamp: u64,
        order_reference_number: u64,
        buy_sell_indicator: u8,
        shares: u32,
        stock: [u8; 8],
        price: u32,
    ) -> (m: Self)
        ensures
            m.message_type == TAG_ADD_ORDER,
            m.stock_locate == stock_locate,
            m.tracking_number == tracking_number,
            m.timestamp@ == crate::wire::be::be48_bytes(timestamp),
            be48(m.timestamp@) == timestamp % 0x1_0000_0000_0000,
            m.order_reference_number == order_reference_number,
            m.buy_sell_indicator == buy_sell_indicator,
            m.shares == shares,
            m.stock == stock,
            m.price == price,
    {
        AddOrder {
            message_type: TAG_ADD_ORDER,
            stock_locate,
            tracking_number,
            timestamp: encode_u48(timestamp),
            order_reference_number,
            buy_sell_indicator,
            shares,
            stock,
            price,
        }
    }

    /// The nanoseconds that a timestamp field holds.
    pub fn decode_timestamp(ts: [u8; 6]) -> (ns: u64)
        ensures
            ns == be48(ts@),
    {
        decode_u48(ts)
    }

    /// Appends the message's 36 bytes to `out`.
    pub fn encode(&self, out: &mut Vec<u8>)
        ensures
            final(out)@ == old(out)@ + self.wire(),
    {
        let ghost before = out@;
        out.push(self.message_type);
        append::<2>(out, &u16_to_be(self.stock_locate));
        append::<2>(out, &u16_to_be(self.tracking_number));
        append::<6>(out, &self.timestamp);
        let ghost w11 = seq![self.message_type] + be16_bytes(self.stock_locate) + be16_bytes(
            self.tracking_number,
        ) + self.timestamp@;
        assert(out@ =~= before + w11);
        append::<8>(out, &u64_to_be(self.order_reference_number));
        out.push(self.buy_sell_indicator);
        append::<4>(out, &u32_to_be(self.shares));
        let ghost w24 = w11 + be64_bytes(self.order_reference_number)
            + seq![self.buy_sell_indicator] + be32_bytes(self.shares);
        assert(out@ =~= before + w24);
        append::<8>(out, &self.stock);
        append::<4>(out, &u32_to_be(self.price));
        assert(out@ =~= before + (w24 + self.stock@ + be32_bytes(self.price)));
    }

    /// Reads a message from the front of `bytes`; bytes after it are ignored.
    pub fn decode(bytes: &[u8]) -> (r: Result<Self, WireError>)
        ensures
            bytes@.len() < ADD_ORDER_LEN ==> r == Err::<Self, WireError>(
                WireError::MalformedFrame,
            ),
            bytes@.len() >= ADD_ORDER_LEN ==> r == Ok::<Self, WireError>(Self::parse(bytes@)),
    {
        if bytes.len() < ADD_ORDER_LEN {
            return Err(WireError::MalformedFrame);
        }
        let m = AddOrder {
            message_type: bytes[0],
            stock_locate: read_u16(bytes, 1),
            tracking_number: read_u16(bytes, 3),
            timestamp: read_array::<6>(bytes, 5),
            order_reference_number: read_u64(bytes, 11),
            buy_sell_indicator: bytes[19],
            shares: read_u32(bytes, 20),
            stock: read_array::<8>(bytes, 24),
            price: read_u32(bytes, 32),
        };
        proof {
            array_of_view::<6>(bytes@.subrange(5, 11));
            array_of_view::<8>(bytes@.subrange(24, 32));
            assert(m.timestamp@ =~= Self::parse(bytes@).timestamp@);
            assert(m.timestamp == Self::parse(bytes@).timestamp);
            assert(m.stock@ =~= Self::parse(bytes@).stock@);
            assert(m.stock == Self::parse(bytes@).stock);
        }
        Ok(m)
    }
}

impl OrderExecutedMessage {
    /// The 31 bytes of the message, field after field.
    pub open spec fn wire(self) -> Seq<u8> {
        seq![self.message_type] + be16_bytes(self.stock_locate) + be16_bytes(self.tracking_number)
            + self.timestamp@ + be64_bytes(self.order_reference_number) + be32_bytes(
            self.executed_shares,
        ) + be64_bytes(self.match_number)
    }

    /// The message that the first 31 bytes of `bytes` spell.
    pub open spec fn parse(bytes: Seq<u8>) -> Self
        recommends
            bytes.len() >= ORDER_EXECUTED_LEN,
    {
        OrderExecutedMessage {
            message_type: bytes[0],
            stock_locate: be16(bytes.subrange(1, 3)) as u16,
            tracking_number: be16(bytes.subrange(3, 5)) as u16,
            timestamp: array_of::<6>(bytes.subrange(5, 11)),
            order_reference_number: be64(bytes.subrange(11, 19)) as u64,
            executed_shares: be32(bytes.subrange(19, 23)) as u32,
            match_number: be64(bytes.subrange(23, 31)) as u64,
        }
    }

    /// An `OrderExecutedMessage` with the given fields, stamped with the low 48
    /// bits of `timestamp`.
    pub fn new(
        stock_locate: u16,
        tracking_number: u16,
        timestamp: u64,
        order_reference_number: u64,
        executed_shares: u32,
        match_number: u64,
    ) -> (m: Self)
        ensures
            m.message_type == TAG_ORDER_EXECUTED,
            m.stock_locate == stock_locate,
            m.tracking_number == tracking_number,
            m.timestamp@ == crate::wire::be::be48_bytes(timestamp),
            be48(m.timestamp@) == timestamp % 0x1_0000_0000_0000,
            m.order_reference_number == order_reference_number,
            m.executed_shares == executed_shares,
            m.match_number == match_number,
    {
        OrderExecutedMessage {
            message_type: TAG_ORDER_EXECUTED,
            stock_locate,
            tracking_number,
            timestamp: encode_u48(timestamp),
            order_reference_number,
            executed_shares,
            match_number,
        }
    }

    /// The nanoseconds that a timestamp field holds.
    pub fn decode_timestamp(ts: [u8; 6]) -> (ns: u64)
        ensures
            ns == be48(ts@),
    {
        decode_u48(ts)
    }

    /// Appends the message's 31 bytes to `out`.
    pub fn encode(&self, out: &mut Vec<u8>)
        ensures
            final(out)@ == old(out)@ + self.wire(),
    {
        let ghost before = out@;
        out.push(self.message_type);
        append::<2>(out, &u16_to_be(self.stock_locate));
        append::<2>(out, &u16_to_be(self.tracking_number));
        append::<6>(out, &self.timestamp);
        let ghost w11 = seq![self.message_type] + be16_bytes(self.stock_locate) + be16_bytes(
            self.tracking_number,
        ) + self.timestamp@;
        assert(out@ =~= before + w11);
        append::<8>(out, &u64_to_be(self.order_reference_number));
        append::<4>(out, &u32_to_be(self.executed_shares));
        append::<8>(out, &u64_to_be(self.match_number));
        assert(out@ =~= before + (w11 + be64_bytes(self.order_reference_number) + be32_bytes(
            self.executed_shares,
        ) + be64_bytes(self.match_number)));
    }

    /// Reads a message from the front of `bytes`; bytes after it are ignored.
    pub fn decode(bytes: &[u8]) -> (r: Result<Self, WireError>)
        ensures
            bytes@.len() < ORDER_EXECUTED_LEN ==> r == Err::<Self, WireError>(
                WireError::MalformedFrame,
            ),
            bytes@.len() >= ORDER_EXECUTED_LEN ==> r == Ok::<Self, WireError>(
                Self::parse(bytes@),
            ),
    {
        if bytes.len() < ORDER_EXECUTED_LEN {
            return Err(WireError::MalformedFrame);
        }
        let m = OrderExecutedMessage {
            message_type: bytes[0],
            stock_locate: read_u16(bytes, 1),
            tracking_number: read_u16(bytes, 3),
            timestamp: read_array::<6>(bytes, 5),
            order_reference_number: read_u64(bytes, 11),
            executed_shares: read_u32(bytes, 19),
            match_number: read_u64(bytes, 23),
        };
        proof {
            array_of_view::<6>(bytes@.subrange(5, 11));
            assert(m.timestamp@ =~= Self::parse(bytes@).timestamp@);
            assert(m.timestamp == Self::parse(bytes@).timestamp);
        }
        Ok(m)
    }
}

impl ItchEvent {
    /// The bytes of the message that the event holds.
    pub open spec fn wire(self) -> Seq<u8> {
        match self {
            ItchEvent::TestBenchmark(m) => m.wire(),
            ItchEvent::AddOrder(m) => m.wire(),
            ItchEvent::OrderExecutedMessage(m) => m.wire(),
        }
    }

    /// Whether the tag byte of the message is the one of its type, as it is in
    /// every message that `new` built or `decode_message` read.
    pub open spec fn tagged(self) -> bool {
        match self {
            ItchEvent::TestBenchmark(m) => m.message_type == TAG_TEST_BENCHMARK,
            ItchEvent::AddOrder(m) => m.message_type == TAG_ADD_ORDER,
            ItchEvent::OrderExecutedMessage(m) => m.message_type == TAG_ORDER_EXECUTED,
        }
    }
}

/// The type that the first byte of `bytes` announces.
pub open spec fn message_type_of(bytes: Seq<u8>) -> Result<MessageType, WireError> {
    if bytes.len() == 0 {
        Err(WireError::MalformedFrame)
    } else if bytes[0] == TAG_TEST_BENCHMARK {
        Ok(MessageType::TestBenchmark)
    } else if bytes[0] == TAG_ADD_ORDER {
        Ok(MessageType::AddOrder)
    } else if bytes[0] == TAG_ORDER_EXECUTED {
        Ok(MessageType::OrderExecuted)
    } else {
        Err(WireError::UnknownMessageType)
    }
}

/// What the payload of one message block decodes to: the event of the type that
/// the tag announces, read from the front of the block; `MalformedFrame` where
/// the block is empty or shorter than that type's layout; `UnknownMessageType`
/// for any other tag.
pub open spec fn message_of(bytes: Seq<u8>) -> Result<ItchEvent, WireError> {
    match message_type_of(bytes) {
        Err(e) => Err(e),
        Ok(MessageType::TestBenchmark) => if bytes.len() < TEST_BENCHMARK_LEN {
            Err(WireError::MalformedFrame)
        } else {
            Ok(ItchEvent::TestBenchmark(TestBenchmark::parse(bytes)))
        },
        Ok(MessageType::AddOrder) => if bytes.len() < ADD_ORDER_LEN {
            Err(WireError::MalformedFrame)
        } else {
            Ok(ItchEvent::AddOrder(AddOrder::parse(bytes)))
        },
        Ok(MessageType::OrderExecuted) => if bytes.len() < ORDER_EXECUTED_LEN {
            Err(WireError::MalformedFrame)
        } else {
            Ok(ItchEvent::OrderExecutedMessage(OrderExecutedMessage::parse(bytes)))
        },
    }
}

/// Looks at the first byte of a message and says which type it announces.
pub fn decode_message_type(bytes: &[u8]) -> (r: Result<MessageType, WireError>)
    ensures
        r == message_type_of(bytes@),
{
    if bytes.len() == 0 {
        return Err(WireError::MalformedFrame);
    }
    let tag = bytes[0];
    if tag == TAG_TEST_BENCHMARK {
        Ok(MessageType::TestBenchmark)
    } else if tag == TAG_ADD_ORDER {
        Ok(MessageType::AddOrder)
    } else if tag == TAG_ORDER_EXECUTED {
        Ok(MessageType::OrderExecuted)
    } else {
        Err(WireError::UnknownMessageType)
    }
}

/// Decodes the payload of one message block.
pub fn decode_message(bytes: &[u8]) -> (r: Result<ItchEvent, WireError>)
    ensures
        r == message_of(bytes@),
{
    match decode_message_type(bytes) {
        Err(e) => Err(e),
        Ok(MessageType::TestBenchmark) => match TestBenchmark::decode(bytes) {
            Ok(m) => Ok(ItchEvent::TestBenchmark(m)),
            Err(e) => Err(e),
        },
        Ok(MessageType::AddOrder) => match AddOrder::decode(bytes) {
            Ok(m) => Ok(ItchEvent::AddOrder(m)),
            Err(e) => Err(e),
        },
        Ok(MessageType::OrderExecuted) => match OrderExecutedMessage::decode(bytes) {
            Ok(m) => Ok(ItchEvent::OrderExecutedMessage(m)),
            Err(e) => Err(e),
        },
    }
}

/// Appends the bytes of `event` to `out`: the tag first, then the fields.
pub fn encode_message(event: &ItchEvent, out: &mut Vec<u8>)
    ensures
        final(out)@ == old(out)@ + event.wire(),
{
    match event {
        ItchEvent::TestBenchmark(m) => m.encode(out),
        ItchEvent::AddOrder(m) => m.encode(out),
        ItchEvent::OrderExecutedMessage(m) => m.encode(out),
    }
}

/// `decode_inverts_encode` for a `TestBenchmark`.
proof fn test_benchmark_parses_back(m: TestBenchmark, rest: Seq<u8>)
    ensures
        TestBenchmark::parse(m.wire() + rest) == m,
        m.wire().len() == 7,
        (m.wire() + rest)[0] == m.message_type,
{
    let bytes = m.wire() + rest;
    assert(bytes[0] == m.message_type);
    assert(bytes.subrange(1, 7) =~= m.timestamp@);
    array_of_view::<6>(m.timestamp@);
    assert(TestBenchmark::parse(bytes).timestamp@ =~= m.timestamp@);
    assert(TestBenchmark::parse(bytes).timestamp == m.timestamp);
}

/// `decode_inverts_encode` for an `AddOrder`.
proof fn add_order_parses_back(m: AddOrder, rest: Seq<u8>)
    ensures
        AddOrder::parse(m.wire() + rest) == m,
        m.wire().len() == 36,
        (m.wire() + rest)[0] == m.message_type,
{
    let bytes = m.wire() + rest;
    let p = AddOrder::parse(bytes);
    assert(m.wire().len() == 36);
    assert(bytes[0] == m.message_type);
    assert(bytes[19] == m.buy_sell_indicator);
    assert(bytes.subrange(1, 3) =~= be16_bytes(m.stock_locate));
    be16_of_bytes(m.stock_locate);
    assert(p.stock_locate == m.stock_locate);
    assert(bytes.subrange(3, 5) =~= be16_bytes(m.tracking_number));
    be16_of_bytes(m.tracking_number);
    assert(p.tracking_number == m.tracking_number);
    assert(bytes.subrange(5, 11) =~= m.timestamp@);
    array_of_view::<6>(m.timestamp@);
    assert(p.timestamp@ =~= m.timestamp@);
    assert(p.timestamp == m.timestamp);
    assert(bytes.subrange(11, 19) =~= be64_bytes(m.order_reference_number));
    be64_of_bytes(m.order_reference_number);
    assert(p.order_reference_number == m.order_reference_number);
    assert(bytes.subrange(20, 24) =~= be32_bytes(m.shares));
    be32_of_bytes(m.shares);
    assert(p.shares == m.shares);
    assert(bytes.subrange(24, 32) =~= m.stock@);
    array_of_view::<8>(m.stock@);
    assert(p.stock@ =~= m.stock@);
    assert(p.stock == m.stock);
    assert(bytes.subrange(32, 36) =~= be32_bytes(m.price));
    be32_of_bytes(m.price);
    assert(p.price == m.price);
}

/// `decode_inverts_encode` for an `OrderExecutedMessage`.
proof fn order_executed_parses_back(m: OrderExecutedMessage, rest: Seq<u8>)
    ensures
        OrderExecutedMessage::parse(m.wire() + rest) == m,
        m.wire().len() == 31,
        (m.wire() + rest)[0] == m.message_type,
{
    let bytes = m.wire() + rest;
    let p = OrderExecutedMessage::parse(bytes);
    assert(m.wire().len() == 31);
    assert(bytes[0] == m.message_type);
    assert(bytes.subrange(1, 3) =~= be16_bytes(m.stock_locate));
    be16_of_bytes(m.stock_locate);
    assert(p.stock_locate == m.stock_locate);
    assert(bytes.subrange(3, 5) =~= be16_bytes(m.tracking_number));
    be16_of_bytes(m.tracking_number);
    assert(p.tracking_number == m.tracking_number);
    assert(bytes.subrange(5, 11) =~= m.timestamp@);
    array_of_view::<6>(m.timestamp@);
    assert(p.timestamp@ =~= m.timestamp@);
    assert(p.timestamp == m.timestamp);
    assert(bytes.subrange(11, 19) =~= be64_bytes(m.order_reference_number));
    be64_of_bytes(m.order_reference_number);
    assert(p.order_reference_number == m.order_reference_number);
    assert(bytes.subrange(19, 23) =~= be32_bytes(m.executed_shares));
    be32_of_bytes(m.executed_shares);
    assert(p.executed_shares == m.executed_shares);
    assert(bytes.subrange(23, 31) =~= be64_bytes(m.match_number));
    be64_of_bytes(m.match_number);
    assert(p.match_number == m.match_number);
}

/// Decoding the bytes of an event gives the event back, whatever follows them.
pub proof fn decode_inverts_encode(event: ItchEvent, rest: Seq<u8>)
    requires
        event.tagged(),
    ensures
        message_of(event.wire() + rest) == Ok::<ItchEvent, WireError>(event),
{
    let bytes = event.wire() + rest;
    match event {
        ItchEvent::TestBenchmark(m) => {
            test_benchmark_parses_back(m, rest);
        },
        ItchEvent::AddOrder(m) => {
            add_order_parses_back(m, rest);
        },
        ItchEvent::OrderExecutedMessage(m) => {
            order_executed_parses_back(m, rest);
        },
    }
}

/// Encoding a decoded event gives back the bytes it was read from: the leading
/// bytes of the block, as many as the type's layout takes.
pub proof fn encode_inverts_decode(bytes: Seq<u8>)
    requires
        message_of(bytes) is Ok,
    ensures
        message_of(bytes)->Ok_0.tagged(),
        message_of(bytes)->Ok_0.wire() == bytes.subrange(
            0,
            message_of(bytes)->Ok_0.wire().len() as int,
        ),
{
    match message_of(bytes)->Ok_0 {
        ItchEvent::TestBenchmark(m) => {
            array_of_view::<6>(bytes.subrange(1, 7));
            assert(m.wire() =~= bytes.subrange(0, 7));
        },
        ItchEvent::AddOrder(m) => {
            array_of_view::<6>(bytes.subrange(5, 11));
            array_of_view::<8>(bytes.subrange(24, 32));
            be16_of_bytes(m.stock_locate);
            be16_unique(be16_bytes(m.stock_locate), bytes.subrange(1, 3));
            be16_of_bytes(m.tracking_number);
            be16_unique(be16_bytes(m.tracking_number), bytes.subrange(3, 5));
            be64_of_bytes(m.order_reference_number);
            be64_unique(be64_bytes(m.order_reference_number), bytes.subrange(11, 19));
            be32_of_bytes(m.shares);
            be32_unique(be32_bytes(m.shares), bytes.subrange(20, 24));
            be32_of_bytes(m.price);
            be32_unique(be32_bytes(m.price), bytes.subrange(32, 36));
            assert(m.wire() =~= bytes.subrange(0, 1) + bytes.subrange(1, 3) + bytes.subrange(3, 5)
                + bytes.subrange(5, 11) + bytes.subrange(11, 19) + bytes.subrange(19, 20)
                + bytes.subrange(20, 24) + bytes.subrange(24, 32) + bytes.subrange(32, 36));
            assert(m.wire() =~= bytes.subrange(0, 36));
        },
        ItchEvent::OrderExecutedMessage(m) => {
            array_of_view::<6>(bytes.subrange(5, 11));
            be16_of_bytes(m.stock_locate);
            be16_unique(be16_bytes(m.stock_locate), bytes.subrange(1, 3));
            be16_of_bytes(m.tracking_number);
            be16_unique(be16_bytes(m.tracking_number), bytes.subrange(3, 5));
            be64_of_bytes(m.order_reference_number);
            be64_unique(be64_bytes(m.order_reference_number), bytes.subrange(11, 19));
            be32_of_bytes(m.executed_shares);
            be32_unique(be32_bytes(m.executed_shares), bytes.subrange(19, 23));
            be64_of_bytes(m.match_number);
            be64_unique(be64_bytes(m.match_number), bytes.subrange(23, 31));
            assert(m.wire() =~= bytes.subrange(0, 1) + bytes.subrange(1, 3) + bytes.subrange(3, 5)
                + bytes.subrange(5, 11) + bytes.subrange(11, 19) + bytes.subrange(19, 23)
                + bytes.subrange(23, 31));
            assert(m.wire() =~= bytes.subrange(0, 31));
        },
    }
}

} // verus!
