use moldudp64::client::receiver::parse_datagram;
use moldudp64::wire::error::WireError;
use moldudp64::wire::itch::{encode_message, AddOrder, ItchEvent, OrderExecutedMessage, TestBenchmark};
use moldudp64::wire::mold::Header;

fn datagram(count: u16, payloads: &[Vec<u8>]) -> Vec<u8> {
    let mut bytes = Vec::new();
    Header::new(*b"SESSION001", 10, count).encode(&mut bytes);
    for p in payloads {
        bytes.extend_from_slice(&(p.len() as u16).to_be_bytes());
        bytes.extend_from_slice(p);
    }
    bytes
}

fn wire_of(event: &ItchEvent) -> Vec<u8> {
    let mut out = Vec::new();
    encode_message(event, &mut out);
    out
}

#[test]
fn short_datagram_is_malformed() {
    assert_eq!(parse_datagram(&[0u8; 19]), Err(WireError::MalformedFrame));
    assert_eq!(parse_datagram(&[]), Err(WireError::MalformedFrame));
}

#[test]
fn header_only_datagram() {
    let r = parse_datagram(&datagram(0, &[])).unwrap();
    assert_eq!(r.header.first_sequence(), 10);
    assert_eq!(r.header.count(), 0);
    assert!(r.events.is_empty());
    assert_eq!(r.blocks, 0);
    assert!(!r.truncated);
}

#[test]
fn events_come_out_in_block_order() {
    let a = ItchEvent::TestBenchmark(TestBenchmark::new(77));
    let b = ItchEvent::AddOrder(AddOrder::new(1, 2, 3, 4, b'B', 5, *b"AAPL    ", 6));
    let c = ItchEvent::OrderExecutedMessage(OrderExecutedMessage::new(9, 8, 7, 6, 5, 4));
    let bytes = datagram(3, &[wire_of(&a), wire_of(&b), wire_of(&c)]);
    let r = parse_datagram(&bytes).unwrap();
    assert_eq!(r.events, vec![a, b, c]);
    assert_eq!(r.blocks, 3);
    assert!(!r.truncated);
    assert_eq!(r.header.session_id, *b"SESSION001");
}

#[test]
fn unknown_empty_and_short_blocks_are_skipped() {
    let a = ItchEvent::TestBenchmark(TestBenchmark::new(1));
    let b = ItchEvent::TestBenchmark(TestBenchmark::new(2));
    let bytes = datagram(
        5,
        &[wire_of(&a), b"zzzz".to_vec(), vec![], b"A-too-short".to_vec(), wire_of(&b)],
    );
    let r = parse_datagram(&bytes).unwrap();
    assert_eq!(r.events, vec![a, b]);
    assert_eq!(r.blocks, 5);
    assert!(!r.truncated);
}

#[test]
fn truncated_block_stops_the_datagram() {
    let a = ItchEvent::TestBenchmark(TestBenchmark::new(1));
    let b = ItchEvent::TestBenchmark(TestBenchmark::new(2));
    let mut bytes = datagram(2, &[wire_of(&a), wire_of(&b)]);
    bytes.pop();
    let r = parse_datagram(&bytes).unwrap();
    assert_eq!(r.events, vec![a]);
    assert_eq!(r.blocks, 1);
    assert!(r.truncated);
}

#[test]
fn missing_length_prefix_stops_the_datagram() {
    let a = ItchEvent::TestBenchmark(TestBenchmark::new(1));
    let mut bytes = datagram(2, &[wire_of(&a)]);
    bytes.push(0);
    let r = parse_datagram(&bytes).unwrap();
    assert_eq!(r.events, vec![a]);
    assert!(r.truncated);
}

#[test]
fn blocks_beyond_the_count_are_not_read() {
    let a = ItchEvent::TestBenchmark(TestBenchmark::new(1));
    let b = ItchEvent::TestBenchmark(TestBenchmark::new(2));
    let bytes = datagram(1, &[wire_of(&a), wire_of(&b)]);
    let r = parse_datagram(&bytes).unwrap();
    assert_eq!(r.events, vec![a]);
    assert_eq!(r.blocks, 1);
    assert!(!r.truncated);
}
