use std::collections::VecDeque;
use tokio_way_sock::{encode_event, take_message, take_messages, Framed, WaylandEvent};

fn buffer(bytes: &[u8]) -> VecDeque<u8> {
    bytes.iter().copied().collect()
}

fn event(object_id: u32, op_code: u16, args: Vec<u8>) -> WaylandEvent<u32> {
    WaylandEvent { object_id, op_code, args, fds: Vec::new() }
}

/// `wl_display.get_registry`: object 1, op code 1, a new id of 2.
const GET_REGISTRY: [u8; 12] = [1, 0, 0, 0, 1, 0, 12, 0, 2, 0, 0, 0];

#[test]
fn short_buffer_is_incomplete() {
    let mut empty = buffer(&[]);
    assert!(matches!(take_message(&mut empty), Framed::Incomplete));
    assert!(empty.is_empty());
    let mut data = buffer(&GET_REGISTRY[..7]);
    assert!(matches!(take_message(&mut data), Framed::Incomplete));
    assert_eq!(data, buffer(&GET_REGISTRY[..7]));
}

#[test]
fn missing_arguments_are_incomplete() {
    let mut data = buffer(&GET_REGISTRY[..11]);
    assert!(matches!(take_message(&mut data), Framed::Incomplete));
    assert_eq!(data, buffer(&GET_REGISTRY[..11]));
}

#[test]
fn whole_message_is_taken() {
    let mut data = buffer(&GET_REGISTRY);
    data.extend([9, 9, 9]);
    match take_message(&mut data) {
        Framed::Message(request) => {
            assert_eq!(request.object_id, 1);
            assert_eq!(request.op_code, 1);
            assert_eq!(request.args, vec![2, 0, 0, 0]);
        }
        other => panic!("not a message: {other:?}"),
    }
    assert_eq!(data, buffer(&[9, 9, 9]));
}

#[test]
fn header_bytes_have_the_low_byte_first() {
    let mut data = buffer(&[0x78, 0x56, 0x34, 0x12, 0xCD, 0xAB, 8, 0]);
    match take_message(&mut data) {
        Framed::Message(request) => {
            assert_eq!(request.object_id, 0x1234_5678);
            assert_eq!(request.op_code, 0xABCD);
            assert!(request.args.is_empty());
        }
        other => panic!("not a message: {other:?}"),
    }
    assert!(data.is_empty());
}

#[test]
fn length_below_a_header_is_malformed() {
    for length in 0..8u8 {
        let bytes = [1, 0, 0, 0, 0, 0, length, 0, 7];
        let mut data = buffer(&bytes);
        match take_message(&mut data) {
            Framed::Malformed(claimed) => assert_eq!(claimed, u16::from(length)),
            other => panic!("not malformed: {other:?}"),
        }
        assert_eq!(data, buffer(&bytes));
    }
}

#[test]
fn longest_message_is_taken() {
    let mut bytes = vec![0, 0, 0, 0, 0, 0, 0xFF, 0xFF];
    bytes.resize(65534, 3);
    let mut data = buffer(&bytes);
    assert!(matches!(take_message(&mut data), Framed::Incomplete));
    data.push_back(4);
    match take_message(&mut data) {
        Framed::Message(request) => {
            assert_eq!(request.args.len(), 65527);
            assert_eq!(request.args[65526], 4);
        }
        other => panic!("not a message: {other:?}"),
    }
}

#[test]
fn all_whole_messages_are_taken_in_order() {
    let mut data = buffer(&GET_REGISTRY);
    data.extend([5, 0, 0, 0, 2, 0, 8, 0]);
    data.extend(&GET_REGISTRY[..9]);
    let (messages, malformed) = take_messages(&mut data);
    assert_eq!(malformed, None);
    assert_eq!(messages.len(), 2);
    assert_eq!((messages[0].object_id, messages[0].op_code), (1, 1));
    assert_eq!((messages[1].object_id, messages[1].op_code), (5, 2));
    assert_eq!(data, buffer(&GET_REGISTRY[..9]));
}

#[test]
fn messages_before_a_malformed_header_are_taken() {
    let mut data = buffer(&GET_REGISTRY);
    data.extend([1, 0, 0, 0, 0, 0, 3, 0]);
    let (messages, malformed) = take_messages(&mut data);
    assert_eq!(messages.len(), 1);
    assert_eq!(malformed, Some(3));
    data.extend(&GET_REGISTRY);
    let (more, still) = take_messages(&mut data);
    assert!(more.is_empty());
    assert_eq!(still, Some(3));
    assert_eq!(data.len(), 20);
}

#[test]
fn splits_do_not_matter() {
    let mut stream: Vec<u8> = Vec::new();
    for n in 0..5u8 {
        stream.extend(encode_event(&event(u32::from(n), 7, vec![n; usize::from(n)])));
    }
    let mut whole = buffer(&stream);
    let (expected, _) = take_messages(&mut whole);
    assert_eq!(expected.len(), 5);
    for size in 1..stream.len() {
        let mut data = VecDeque::new();
        let mut found = Vec::new();
        for part in stream.chunks(size) {
            data.extend(part);
            found.extend(take_messages(&mut data).0);
        }
        assert!(data.is_empty());
        assert_eq!(found.len(), expected.len());
        for (a, b) in found.iter().zip(&expected) {
            assert_eq!((a.object_id, a.op_code, &a.args), (b.object_id, b.op_code, &b.args));
        }
    }
}

#[test]
fn event_is_encoded() {
    assert_eq!(
        encode_event(&event(0x1234_5678, 0xABCD, vec![1, 2, 3, 4])),
        vec![0x78, 0x56, 0x34, 0x12, 0xCD, 0xAB, 12, 0, 1, 2, 3, 4],
    );
    assert_eq!(encode_event(&event(1, 0, Vec::new())), vec![1, 0, 0, 0, 0, 0, 8, 0]);
}

#[test]
fn encoded_event_is_read_back() {
    let args: Vec<u8> = (0..=255).collect();
    let mut data = buffer(&encode_event(&event(u32::MAX, u16::MAX, args.clone())));
    match take_message(&mut data) {
        Framed::Message(request) => {
            assert_eq!(request.object_id, u32::MAX);
            assert_eq!(request.op_code, u16::MAX);
            assert_eq!(request.args, args);
        }
        other => panic!("not a message: {other:?}"),
    }
    assert!(data.is_empty());
}

#[test]
fn framing_and_encoding_keep_every_byte() {
    let mut stream = GET_REGISTRY.to_vec();
    stream.extend([5, 0, 0, 0, 2, 0, 9, 0, 77]);
    stream.extend([1, 2, 3]);
    let mut data = buffer(&stream);
    let (messages, _) = take_messages(&mut data);
    let mut back: Vec<u8> = Vec::new();
    for m in messages {
        back.extend(encode_event(&event(m.object_id, m.op_code, m.args)));
    }
    back.extend(data);
    assert_eq!(back, stream);
}

#[test]
fn length_field_keeps_the_low_sixteen_bits() {
    let bytes = encode_event(&event(1, 2, vec![0; 65528]));
    assert_eq!(bytes.len(), 65536);
    assert_eq!(bytes[..8], [1, 0, 0, 0, 2, 0, 0, 0]);
    let bytes = encode_event(&event(1, 2, vec![0; 65527]));
    assert_eq!(bytes[..8], [1, 0, 0, 0, 2, 0, 0xFF, 0xFF]);
}
