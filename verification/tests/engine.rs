use bytes::Bytes;
use moldudp64::client::receiver::parse_datagram;
use moldudp64::engine::publisher::Publisher;
use moldudp64::engine::sequencer::{Event, SequencedEvent, Sequencer};
use moldudp64::engine::sequencerpublisher::SequencerPublisher;
use moldudp64::engine::sessions::{same_session, SessionTable};
use moldudp64::gateway::batch_size;
use moldudp64::wire::itch::{encode_message, AddOrder, ItchEvent, TestBenchmark};
use moldudp64::wire::mold::{Packet, MAX_PACKET, MAX_PAYLOAD};

const MS: u64 = 1_000_000;

fn stamped(session: &[u8; 10], sequence_number: u64, payload: &[u8]) -> SequencedEvent {
    SequencedEvent {
        payload: Bytes::copy_from_slice(payload),
        sequence_number,
        session_id: *session,
    }
}

#[test]
fn session_table_starts_each_session_at_one() {
    let mut table = SessionTable::new();
    assert_eq!(table.get_current_session(), [0u8; 10]);
    assert_eq!(table.peek_sequence(b"AAAAAAAAAA"), 1);
    assert_eq!(table.next_sequence(*b"AAAAAAAAAA"), 1);
    assert_eq!(table.next_sequence(*b"AAAAAAAAAA"), 2);
    assert_eq!(table.next_sequence(*b"BBBBBBBBBB"), 1);
    assert_eq!(table.next_sequence(*b"AAAAAAAAAA"), 3);
    assert_eq!(table.peek_sequence(b"AAAAAAAAAA"), 4);
    assert_eq!(table.peek_sequence(b"BBBBBBBBBB"), 2);
    assert_eq!(table.peek_sequence(b"CCCCCCCCCC"), 1);
}

#[test]
fn session_table_current_session() {
    let mut table = SessionTable::with_session(*b"0123456789");
    assert_eq!(table.get_current_session(), *b"0123456789");
    table.next_sequence(*b"0123456789");
    table.set_current_session(*b"9876543210");
    assert_eq!(table.get_current_session(), *b"9876543210");
    assert_eq!(table.peek_sequence(b"0123456789"), 2);
    assert!(same_session(b"0123456789", b"0123456789"));
    assert!(!same_session(b"0123456789", b"0123456780"));
}

#[test]
fn sequencer_numbers_without_gaps() {
    let mut sequencer = Sequencer::with_table(SessionTable::with_session(*b"SESSION001"));
    let mut last = 0;
    for i in 0..1000u64 {
        assert!(sequencer.has_next());
        let e = sequencer.sequence(Event { payload: Bytes::from(i.to_be_bytes().to_vec()) });
        assert_eq!(e.sequence_number, last + 1);
        assert_eq!(e.sequence_number, i + 1);
        assert_eq!(e.session_id, *b"SESSION001");
        assert_eq!(&e.payload[..], &i.to_be_bytes());
        last = e.sequence_number;
    }
}

#[test]
fn fresh_sequencer_starts_at_one() {
    let mut sequencer = Sequencer::new();
    let e = sequencer.sequence(Event { payload: Bytes::new() });
    assert_eq!(e.sequence_number, 1);
    assert_eq!(e.session_id, [0u8; 10]);
}

#[test]
fn two_payloads_one_datagram_after_the_interval() {
    let mut stage = SequencerPublisher::new(MS, 0);
    stage.set_session(*b"SESSION001");
    let mut bench = Vec::new();
    encode_message(&ItchEvent::TestBenchmark(TestBenchmark::new(12345)), &mut bench);
    let mut add = Vec::new();
    let add_event = ItchEvent::AddOrder(AddOrder::new(1, 2, 3, 4, b'B', 100, *b"AAPL    ", 5000));
    encode_message(&add_event, &mut add);
    assert_eq!(bench[0], 0x62);
    assert_eq!(add[0], 0x41);

    assert_eq!(stage.step(10, Some(Event { payload: Bytes::from(bench.clone()) })), None);
    assert_eq!(stage.step(20, Some(Event { payload: Bytes::from(add.clone()) })), None);
    assert_eq!(stage.step(MS - 1, None), None);
    let datagram = stage.step(MS, None).expect("the timer flushes the buffer");
    assert_eq!(stage.step(MS + 1, None), None);

    let received = parse_datagram(&datagram).unwrap();
    assert_eq!(received.header.count(), 2);
    assert_eq!(received.header.first_sequence(), 1);
    assert_eq!(received.header.session_id, *b"SESSION001");
    assert_eq!(received.events.len(), 2);
    assert_eq!(received.events[0], ItchEvent::TestBenchmark(TestBenchmark::new(12345)));
    assert_eq!(received.events[1], add_event);
    let packet = Packet::from_bytes(&datagram).unwrap();
    assert_eq!(packet.message_blocks[0].message_data[0], b'b');
    assert_eq!(packet.message_blocks[1].message_data[0], b'A');
    assert_eq!(received.header.first_sequence() + 1, 2);
}

#[test]
fn seven_hundred_payloads_make_twelve_datagrams() {
    let mut sequencer = Sequencer::with_table(SessionTable::with_session(*b"SESSION001"));
    let mut publisher = Publisher::new(u64::MAX, 0);
    let mut datagrams: Vec<Vec<u8>> = Vec::new();
    let mut input: Vec<Vec<u8>> = Vec::new();
    for i in 0..700u32 {
        let mut payload = vec![0u8; 20];
        payload[..4].copy_from_slice(&i.to_be_bytes());
        input.push(payload.clone());
        let e = sequencer.sequence(Event { payload: Bytes::from(payload) });
        if let Some(d) = publisher.enqueue(e, 0) {
            datagrams.push(d);
        }
    }
    if let Some(d) = publisher.flush(0) {
        datagrams.push(d);
    }
    assert_eq!(datagrams.len(), 12);
    let mut output: Vec<Vec<u8>> = Vec::new();
    let mut next_sequence = 1;
    for (i, d) in datagrams.iter().enumerate() {
        assert!(d.len() <= MAX_PACKET);
        let packet = Packet::from_bytes(d).unwrap();
        let count = packet.header.count();
        assert_eq!(count, if i < 11 { 62 } else { 18 });
        assert_eq!(d.len(), 20 + 22 * count as usize);
        assert_eq!(packet.header.first_sequence(), next_sequence);
        next_sequence += count as u64;
        for b in packet.message_blocks {
            assert_eq!(b.message_length, [0, 20]);
            output.push(b.message_data);
        }
    }
    assert_eq!(output, input);
}

#[test]
fn framing_roundtrip_with_mixed_sizes() {
    let mut sequencer = Sequencer::new();
    let mut publisher = Publisher::new(u64::MAX, 0);
    let sizes = [0usize, 1, 1378, 700, 677, 1, 1377, 0, 0, 0, 300, 1076, 2];
    let mut input: Vec<Vec<u8>> = Vec::new();
    let mut datagrams: Vec<Vec<u8>> = Vec::new();
    for (i, n) in sizes.iter().enumerate() {
        let payload = vec![i as u8; *n];
        input.push(payload.clone());
        let e = sequencer.sequence(Event { payload: Bytes::from(payload) });
        if let Some(d) = publisher.enqueue(e, 0) {
            datagrams.push(d);
        }
    }
    datagrams.extend(publisher.flush(0));
    let mut output: Vec<Vec<u8>> = Vec::new();
    for d in &datagrams {
        assert!(d.len() <= MAX_PACKET);
        for b in Packet::from_bytes(d).unwrap().message_blocks {
            output.push(b.message_data);
        }
    }
    assert_eq!(output, input);
    assert_eq!(datagrams[0].len(), 20 + 2 + 2 + 1);
    assert_eq!(datagrams[1].len(), MAX_PACKET);
}

#[test]
fn largest_payload_fills_a_datagram() {
    let mut publisher = Publisher::new(MS, 0);
    assert_eq!(MAX_PAYLOAD, MAX_PACKET - 22);
    assert_eq!(publisher.enqueue(stamped(b"SESSION001", 1, &[7u8; 1378]), 0), None);
    assert_eq!(publisher.packet_size(), MAX_PACKET);
    assert_eq!(publisher.message_count(), 1);
    let first = publisher.enqueue(stamped(b"SESSION001", 2, &[]), 5).unwrap();
    assert_eq!(first.len(), MAX_PACKET);
    assert_eq!(&first[18..22], &[0, 1, 0x05, 0x62]);
    assert_eq!(publisher.packet_size(), 22);
}

#[test]
fn session_change_flushes_the_buffer() {
    let mut publisher = Publisher::new(MS, 0);
    assert_eq!(publisher.enqueue(stamped(b"SESSION001", 41, b"one"), 0), None);
    assert_eq!(publisher.enqueue(stamped(b"SESSION001", 42, b"two"), 0), None);
    let first = publisher.enqueue(stamped(b"SESSION002", 1, b"three"), 7).unwrap();
    let mut expected = b"SESSION001".to_vec();
    expected.extend_from_slice(&41u64.to_be_bytes());
    expected.extend_from_slice(&[0, 2, 0, 3]);
    expected.extend_from_slice(b"one");
    expected.extend_from_slice(&[0, 3]);
    expected.extend_from_slice(b"two");
    assert_eq!(first, expected);
    let second = publisher.flush(8).unwrap();
    let mut expected = b"SESSION002".to_vec();
    expected.extend_from_slice(&1u64.to_be_bytes());
    expected.extend_from_slice(&[0, 1, 0, 5]);
    expected.extend_from_slice(b"three");
    assert_eq!(second, expected);
    assert_eq!(publisher.flush(9), None);
    assert_eq!(publisher.message_count(), 0);
    assert_eq!(publisher.packet_size(), 20);
}

#[test]
fn timer_flushes_at_the_deadline_and_not_before() {
    let mut publisher = Publisher::new(500, 1_000);
    assert!(!publisher.due(1_499));
    assert!(publisher.due(1_500));
    publisher.enqueue(stamped(b"SESSION001", 1, b"x"), 1_000);
    assert_eq!(publisher.poll(1_499), None);
    assert_eq!(publisher.message_count(), 1);
    let d = publisher.poll(1_500).unwrap();
    assert_eq!(d.len(), 23);
    assert_eq!(publisher.message_count(), 0);
    assert!(!publisher.due(1_999));
    assert!(publisher.due(2_000));
    assert_eq!(publisher.poll(2_000), None);
    assert!(!publisher.due(2_499));
    assert!(publisher.due(2_500));
}

#[test]
fn deadline_saturates() {
    let mut publisher = Publisher::new(u64::MAX, 5);
    assert!(!publisher.due(u64::MAX - 1));
    assert!(publisher.due(u64::MAX));
    publisher.enqueue(stamped(b"SESSION001", 1, b"x"), 5);
    assert!(publisher.poll(u64::MAX).is_some());
}

#[test]
fn stage_restarts_numbering_in_a_new_session() {
    let mut stage = SequencerPublisher::new(u64::MAX, 0);
    stage.set_session(*b"AAAAAAAAAA");
    assert!(stage.has_next());
    assert_eq!(stage.step(0, Some(Event { payload: Bytes::from_static(b"a1") })), None);
    assert_eq!(stage.step(0, Some(Event { payload: Bytes::from_static(b"a2") })), None);
    stage.set_session(*b"BBBBBBBBBB");
    let first = stage.step(0, Some(Event { payload: Bytes::from_static(b"b1") })).unwrap();
    let p = Packet::from_bytes(&first).unwrap();
    assert_eq!(p.header.session_id, *b"AAAAAAAAAA");
    assert_eq!(p.header.first_sequence(), 1);
    assert_eq!(p.header.count(), 2);
    stage.set_session(*b"AAAAAAAAAA");
    let second = stage.step(0, Some(Event { payload: Bytes::from_static(b"a3") })).unwrap();
    let p = Packet::from_bytes(&second).unwrap();
    assert_eq!(p.header.session_id, *b"BBBBBBBBBB");
    assert_eq!(p.header.first_sequence(), 1);
    assert_eq!(p.header.count(), 1);
    let third = stage.flush(0).unwrap();
    let p = Packet::from_bytes(&third).unwrap();
    assert_eq!(p.header.session_id, *b"AAAAAAAAAA");
    assert_eq!(p.header.first_sequence(), 3);
    assert_eq!(p.header.count(), 1);
    assert_eq!(p.message_blocks[0].message_data, b"a3".to_vec());
}

#[test]
fn batch_size_is_at_least_one() {
    assert_eq!(batch_size::<u8>(), 128);
    assert_eq!(batch_size::<u64>(), 16);
    assert_eq!(batch_size::<[u8; 100]>(), 1);
    assert_eq!(batch_size::<[u8; 128]>(), 1);
    assert_eq!(batch_size::<[u8; 129]>(), 1);
    assert_eq!(batch_size::<[u8; 1000]>(), 1);
}
