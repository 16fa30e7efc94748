use moldudp64::wire::be::{
    decode_u48, encode_u48, read_array, read_u16, read_u32, read_u64, u16_from_be, u16_to_be,
    u32_from_be, u32_to_be, u64_from_be, u64_to_be,
};
use moldudp64::wire::error::WireError;
use moldudp64::wire::itch::{
    decode_message, decode_message_type, encode_message, AddOrder, ItchEvent, MessageType,
    OrderExecutedMessage, TestBenchmark,
};
use moldudp64::wire::mold::{next_block, parse_header, Header, MessageBlock, Packet};

#[test]
fn test_message_block() {
    let message = "Hello, World!";
    let message_length: [u8; 2] = (message.len() as u16).to_be_bytes();
    let message_data: Vec<u8> = message.as_bytes().to_vec();

    println!("Original Message: {:?}", message);
    println!("Message Length: {:?}", message_length);
    println!("Message Data: {:?}", message_data);

    let block = MessageBlock { message_length, message_data };

    let reconstructed_length = u16::from_be_bytes(block.message_length);
    let reconstructed_data = &block.message_data;

    println!("Reconstructed Length: {:?}", reconstructed_length);
    println!(
        "Reconstructed Data: {:?}",
        std::str::from_utf8(reconstructed_data).unwrap()
    );
    assert_eq!(reconstructed_length, 13);
    assert_eq!(reconstructed_data.as_slice(), message.as_bytes());
}

#[test]
fn big_endian_fields_match_std() {
    assert_eq!(u16_to_be(0x0809), 0x0809u16.to_be_bytes());
    assert_eq!(u16_to_be(0x0809), [0x08, 0x09]);
    assert_eq!(u16_from_be([0x08, 0x09]), 0x0809);
    assert_eq!(u32_to_be(0x0102_0304), [1, 2, 3, 4]);
    assert_eq!(u32_from_be([0xff, 0, 0, 1]), 0xff00_0001);
    assert_eq!(u64_to_be(0x0102_0304_0506_0708), [1, 2, 3, 4, 5, 6, 7, 8]);
    assert_eq!(u64_from_be([0xff, 0, 0, 0, 0, 0, 0, 2]), 0xff00_0000_0000_0002);
    for x in [0u64, 1, 255, 256, 65_535, u32::MAX as u64, u64::MAX, 0x1234_5678_9abc_def0] {
        assert_eq!(u64_to_be(x), x.to_be_bytes());
        assert_eq!(u64_from_be(x.to_be_bytes()), x);
        assert_eq!(u32_to_be(x as u32), (x as u32).to_be_bytes());
        assert_eq!(u16_to_be(x as u16), (x as u16).to_be_bytes());
    }
}

#[test]
fn u48_is_bytes_two_to_eight() {
    assert_eq!(encode_u48(0x0000_0102_0304_0506), [1, 2, 3, 4, 5, 6]);
    assert_eq!(decode_u48([1, 2, 3, 4, 5, 6]), 0x0102_0304_0506);
    assert_eq!(decode_u48([0, 0, 0, 0, 0, 0]), 0);
    assert_eq!(decode_u48([0xff; 6]), 0xffff_ffff_ffff);
}

#[test]
fn u48_drops_the_upper_sixteen_bits() {
    let value = 0xabcd_0102_0304_0506u64;
    assert_eq!(encode_u48(value), [1, 2, 3, 4, 5, 6]);
    assert_eq!(decode_u48(encode_u48(value)), value % (1 << 48));
    assert_eq!(decode_u48(encode_u48(u64::MAX)), (1 << 48) - 1);
}

#[test]
fn u48_roundtrip_on_bytes() {
    for ts in [[0u8; 6], [9, 8, 7, 6, 5, 4], [0xff; 6], [0, 0, 0, 0, 0, 1]] {
        assert_eq!(encode_u48(decode_u48(ts)), ts);
    }
}

#[test]
fn readers_take_the_bytes_at_the_offset() {
    let bytes = [0u8, 1, 2, 3, 4, 5, 6, 7, 8, 9];
    assert_eq!(read_u16(&bytes, 1), 0x0102);
    assert_eq!(read_u32(&bytes, 2), 0x0203_0405);
    assert_eq!(read_u64(&bytes, 2), 0x0203_0405_0607_0809);
    assert_eq!(read_array::<3>(&bytes, 7), [7, 8, 9]);
    assert_eq!(read_array::<0>(&bytes, 10), [0u8; 0]);
}

#[test]
fn test_benchmark_layout() {
    let m = TestBenchmark::new(0x0102_0304_0506);
    assert_eq!(m.message_type, b'b');
    assert_eq!(m.timestamp, [1, 2, 3, 4, 5, 6]);
    assert_eq!(TestBenchmark::decode_timestamp(m.timestamp), 0x0102_0304_0506);
    let mut out = vec![0xee];
    m.encode(&mut out);
    assert_eq!(out, vec![0xee, b'b', 1, 2, 3, 4, 5, 6]);
    assert_eq!(TestBenchmark::decode(&out[1..]), Ok(m));
    assert_eq!(TestBenchmark::decode(&out[1..7]), Err(WireError::MalformedFrame));
}

#[test]
fn add_order_layout() {
    let m = AddOrder::new(0x0102, 0x0304, 0x0a0b_0c0d_0e0f, 0x1112_1314_1516_1718, b'B', 0x2122_2324, *b"ABCDEFGH", 0x3132_3334);
    assert_eq!(m.message_type, b'A');
    let mut out = Vec::new();
    m.encode(&mut out);
    assert_eq!(
        out,
        vec![
            b'A', 1, 2, 3, 4, 0x0a, 0x0b, 0x0c, 0x0d, 0x0e, 0x0f, 0x11, 0x12, 0x13, 0x14, 0x15,
            0x16, 0x17, 0x18, b'B', 0x21, 0x22, 0x23, 0x24, b'A', b'B', b'C', b'D', b'E', b'F',
            b'G', b'H', 0x31, 0x32, 0x33, 0x34
        ]
    );
    assert_eq!(out.len(), 36);
    assert_eq!(AddOrder::decode(&out), Ok(m));
    assert_eq!(AddOrder::decode_timestamp(m.timestamp), 0x0a0b_0c0d_0e0f);
    assert_eq!(AddOrder::decode(&out[..35]), Err(WireError::MalformedFrame));
    out.push(0x99);
    assert_eq!(AddOrder::decode(&out), Ok(m));
}

#[test]
fn order_executed_layout() {
    let m = OrderExecutedMessage::new(7, 9, 1_000_000_007, 42, 300, 0xdead_beef);
    assert_eq!(m.message_type, b'E');
    let mut out = Vec::new();
    m.encode(&mut out);
    assert_eq!(out.len(), 31);
    assert_eq!(&out[0..5], &[b'E', 0, 7, 0, 9]);
    assert_eq!(&out[5..11], &1_000_000_007u64.to_be_bytes()[2..]);
    assert_eq!(&out[11..19], &42u64.to_be_bytes());
    assert_eq!(&out[19..23], &300u32.to_be_bytes());
    assert_eq!(&out[23..31], &0xdead_beefu64.to_be_bytes());
    assert_eq!(OrderExecutedMessage::decode(&out), Ok(m));
    assert_eq!(OrderExecutedMessage::decode_timestamp(m.timestamp), 1_000_000_007);
    assert_eq!(OrderExecutedMessage::decode(&out[..30]), Err(WireError::MalformedFrame));
}

#[test]
fn message_type_is_read_from_the_first_byte() {
    assert_eq!(decode_message_type(b"b"), Ok(MessageType::TestBenchmark));
    assert_eq!(decode_message_type(b"Axyz"), Ok(MessageType::AddOrder));
    assert_eq!(decode_message_type(b"E"), Ok(MessageType::OrderExecuted));
    assert_eq!(decode_message_type(b"z"), Err(WireError::UnknownMessageType));
    assert_eq!(decode_message_type(b""), Err(WireError::MalformedFrame));
}

#[test]
fn decode_inverts_encode_for_each_type() {
    let events = [
        ItchEvent::TestBenchmark(TestBenchmark::new(123_456_789)),
        ItchEvent::AddOrder(AddOrder::new(1, 2, 3, 4, b'S', 5, *b"MSFT    ", 6)),
        ItchEvent::OrderExecutedMessage(OrderExecutedMessage::new(1, 2, 3, 4, 5, 6)),
    ];
    for event in events {
        let mut out = Vec::new();
        encode_message(&event, &mut out);
        assert_eq!(decode_message(&out), Ok(event));
        out.extend_from_slice(b"trailing");
        assert_eq!(decode_message(&out), Ok(event));
    }
}

#[test]
fn decode_message_errors() {
    assert_eq!(decode_message(b""), Err(WireError::MalformedFrame));
    assert_eq!(decode_message(b"b12345"), Err(WireError::MalformedFrame));
    assert_eq!(decode_message(&[b'A'; 35]), Err(WireError::MalformedFrame));
    assert_eq!(decode_message(&[b'E'; 30]), Err(WireError::MalformedFrame));
    assert_eq!(decode_message(b"z1234567"), Err(WireError::UnknownMessageType));
}

#[test]
fn header_fields() {
    let h = Header::new(*b"SESSION001", 0x0102_0304_0506_0708, 0x0a0b);
    assert_eq!(h.session_id, *b"SESSION001");
    assert_eq!(h.sequence_number, [1, 2, 3, 4, 5, 6, 7, 8]);
    assert_eq!(h.message_count, [0x0a, 0x0b]);
    assert_eq!(h.first_sequence(), 0x0102_0304_0506_0708);
    assert_eq!(h.count(), 0x0a0b);
    let mut out = Vec::new();
    h.encode(&mut out);
    assert_eq!(out.len(), 20);
    assert_eq!(&out[..10], b"SESSION001");
    assert_eq!(parse_header(&out), Ok(h));
    assert_eq!(parse_header(&out[..19]), Err(WireError::MalformedFrame));
    assert_eq!(parse_header(&[]), Err(WireError::MalformedFrame));
}

#[test]
fn next_block_finds_the_payload() {
    let bytes = [0u8, 3, 7, 8, 9, 0, 0, 0, 2, 1];
    assert_eq!(next_block(&bytes, 0, 4), Some((2, 5)));
    assert_eq!(next_block(&bytes, 5, 3), Some((7, 7)));
    assert_eq!(next_block(&bytes, 7, 2), None);
    assert_eq!(next_block(&bytes, 0, 0), None);
    assert_eq!(next_block(&bytes, 9, 1), None);
    assert_eq!(next_block(&bytes, 10, 1), None);
}

fn sample_packet() -> Packet {
    Packet {
        header: Header::new(*b"0123456789", 5, 2),
        message_blocks: vec![
            MessageBlock { message_length: [0, 3], message_data: vec![1, 2, 3] },
            MessageBlock { message_length: [0, 0], message_data: vec![] },
        ],
    }
}

#[test]
fn packet_to_bytes_layout() {
    let bytes = sample_packet().to_bytes();
    let mut expected = b"0123456789".to_vec();
    expected.extend_from_slice(&[0, 0, 0, 0, 0, 0, 0, 5, 0, 2]);
    expected.extend_from_slice(&[0, 3, 1, 2, 3, 0, 0]);
    assert_eq!(bytes, expected);
}

#[test]
fn packet_roundtrip() {
    let packet = sample_packet();
    assert_eq!(Packet::from_bytes(&packet.to_bytes()), Ok(packet));
}

#[test]
fn packet_from_bytes_ignores_what_follows_the_blocks() {
    let packet = sample_packet();
    let mut bytes = packet.to_bytes();
    bytes.extend_from_slice(&[9, 9, 9]);
    assert_eq!(Packet::from_bytes(&bytes), Ok(packet));
}

#[test]
fn packet_from_bytes_errors() {
    let bytes = sample_packet().to_bytes();
    assert_eq!(Packet::from_bytes(&bytes[..19]), Err(WireError::MalformedFrame));
    assert_eq!(Packet::from_bytes(&bytes[..20]), Err(WireError::TruncatedBlock));
    assert_eq!(Packet::from_bytes(&bytes[..21]), Err(WireError::TruncatedBlock));
    assert_eq!(Packet::from_bytes(&bytes[..24]), Err(WireError::TruncatedBlock));
    assert_eq!(Packet::from_bytes(&bytes[..26]), Err(WireError::TruncatedBlock));
    assert!(Packet::from_bytes(&bytes[..27]).is_ok());
}

#[test]
fn packet_with_no_blocks() {
    let packet = Packet { header: Header::new([0; 10], 1, 0), message_blocks: vec![] };
    let bytes = packet.to_bytes();
    assert_eq!(bytes.len(), 20);
    assert_eq!(Packet::from_bytes(&bytes), Ok(packet));
}
