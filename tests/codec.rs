use elafry::codec::{be_u32, decode_datagram, encode_frame, frame, Message};

#[test]
fn test_encode_decode() {
    let message = Message {
        channel_id: 1,
        count: 2,
        data: vec![3, 4, 5],
    };

    let encoded = message.encode();
    let decoded = Message::decode(&encoded).unwrap();

    assert_eq!(message, decoded);
}

#[test]
fn test_decode_empty() {
    let data = vec![];
    let decoded = Message::decode(&data);

    assert_eq!(decoded, None);
}

#[test]
fn test_decode_short() {
    let data = vec![1, 2, 3, 4];
    let decoded = Message::decode(&data);

    assert_eq!(decoded, None);
}

#[test]
fn test_decode() {
    let data = vec![0, 0, 0, 1, 5, 6, 7, 8];
    let decoded = Message::decode(&data).unwrap();

    assert_eq!(decoded.channel_id, 1);
    assert_eq!(decoded.count, 5);
    assert_eq!(decoded.data, vec![6, 7, 8]);
}

#[test]
fn test_encode() {
    let message = Message {
        channel_id: 1,
        count: 2,
        data: vec![3, 4, 5],
    };

    let encoded = message.encode();

    assert_eq!(encoded, vec![0, 0, 0, 1, 2, 3, 4, 5]);
}

#[test]
fn test_type() {
    let message = Message {
        channel_id: 1,
        count: 2,
        data: vec![3, 4, 5],
    };

    assert_eq!(message, message.clone());

    assert_eq!(
        message,
        Message {
            channel_id: 1,
            count: 2,
            data: vec![3, 4, 5],
        }
    );

    assert_eq!(
        format!("{:?}", message),
        "Message { channel_id: 1, count: 2, data: [3, 4, 5] }"
    );

    assert_eq!(message.channel_id, 1);
    assert_eq!(message.count, 2);
    assert_eq!(message.data, vec![3, 4, 5]);
}

#[test]
fn decode_exactly_five_bytes_gives_empty_data() {
    let decoded = Message::decode(&vec![0x12, 0x34, 0x56, 0x78, 9]).unwrap();
    assert_eq!(decoded.channel_id, 0x1234_5678);
    assert_eq!(decoded.count, 9);
    assert!(decoded.data.is_empty());
}

#[test]
fn round_trip_large_channel_and_wrapped_count() {
    let message = Message {
        channel_id: u32::MAX,
        count: 255,
        data: vec![0, 255, 7],
    };
    assert_eq!(Message::decode(&message.encode()).unwrap(), message);
}

#[test]
fn big_endian_reading() {
    assert_eq!(be_u32(0, 0, 1, 0), 256);
    assert_eq!(be_u32(1, 2, 3, 4), 0x0102_0304);
    assert_eq!(be_u32(255, 255, 255, 255), u32::MAX);
}

#[test]
fn frame_prefixes_length() {
    assert_eq!(frame(&vec![9, 8, 7]), vec![0, 0, 0, 3, 9, 8, 7]);
    assert_eq!(frame(&vec![]), vec![0, 0, 0, 0]);
}

#[test]
fn encode_frame_prefixes_body_length() {
    let message = Message {
        channel_id: 7,
        count: 0,
        data: b"hi".to_vec(),
    };
    assert_eq!(
        encode_frame(&message),
        vec![0, 0, 0, 7, 0, 0, 0, 7, 0, b'h', b'i']
    );
}

#[test]
fn datagram_round_trip() {
    let message = Message {
        channel_id: 7,
        count: 3,
        data: b"hi".to_vec(),
    };
    let datagram = encode_frame(&message);
    assert_eq!(decode_datagram(&datagram), Some(message));
}

#[test]
fn datagram_with_zero_length_is_skipped() {
    assert_eq!(decode_datagram(&vec![0, 0, 0, 0, 1, 2, 3, 4, 5]), None);
}

#[test]
fn datagram_shorter_than_its_length_is_dropped() {
    assert_eq!(decode_datagram(&vec![0, 0, 0, 9, 0, 0, 0, 1, 2]), None);
    assert_eq!(decode_datagram(&vec![0, 0]), None);
}

#[test]
fn datagram_with_short_body_is_dropped() {
    assert_eq!(decode_datagram(&vec![0, 0, 0, 3, 0, 0, 0]), None);
}

#[test]
fn datagram_ignores_trailing_bytes() {
    let decoded = decode_datagram(&vec![0, 0, 0, 6, 0, 0, 0, 2, 1, 42, 99, 99]).unwrap();
    assert_eq!(decoded.channel_id, 2);
    assert_eq!(decoded.count, 1);
    assert_eq!(decoded.data, vec![42]);
}
