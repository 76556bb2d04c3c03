use hazelcast_client::remote::message::{
    is_flag_set, Frame, Message, DEFAULT_FLAGS, UNFRAGMENTED_MESSAGE,
};
use hazelcast_client::messaging::pn_counter::pn_counter_get_replica_count::{
    PnCounterGetReplicaCountResponse, RESPONSE_TYPE,
};
use hazelcast_client::messaging::error::DecodeError;
use hazelcast_client::{HazelcastClientError, TryFrom};

#[test]
fn should_convert_to_message_from_request() {
    let id = 1;
    let field: u8 = 36;

    let mut initial = Frame::initial_frame(UNFRAGMENTED_MESSAGE, 0x0A0B0C0D, id);
    let mut body: Vec<u8> = Vec::new();
    body.extend_from_slice(&(-1i32).to_le_bytes());
    body.push(field);
    initial.append_content(body);
    let message = Message::new(id, 0x0A0B0C0D, initial);

    let mut expected = Frame::initial_frame(UNFRAGMENTED_MESSAGE, 0x0A0B0C0D, id);
    let partition_id: &[u8] = &[0xff, 0xff, 0xff, 0xff];
    expected.append_content(partition_id.to_vec());
    expected.append_content("$".as_bytes().to_vec());
    assert_eq!(expected, *message.frame_at(0));
}

#[test]
fn should_convert_to_message_from_bytes() {
    let mut message_bytes: Vec<u8> = Vec::new();
    message_bytes.extend_from_slice(&[
        0x3c, 0x00, 0x00, 0x00, 0x00, 0xc0, 0x01, 0x01, // first frame
        0x00, 0x00, 0x00, 0x00, 0x00, 0x00, 0x00, 0x00, 0x00, 0x00, 0x00, 0x00, 0x00, 0xff, 0x49,
        0x2e, 0xc0, 0x97, 0x9d, 0xeb, 0x37, 0x13, 0x85, 0xb8, 0xc3, 0xd9, 0x54, 0xd6, 0x8b, 0x01,
        0x0f, 0x01, 0x00, 0x00, 0x00, 0x2e, 0x4f, 0x78, 0x21, 0x19, 0x50, 0xcf, 0x85, 0xdd, 0x08,
        0xb9, 0xcc, 0xff, 0x94, 0x70, 0x85, 0x00,
        //
        0x06, 0x00, 0x00, 0x00, 0x00, 0x10, // begin data structure frame
        //
        0x0a, 0x00, 0x00, 0x00, 0x00, 0x00, 0x45, 0x16, // data structure init frame
        0x00, 0x00,
        //
        0x10, 0x00, 0x00, 0x00, 0x00, 0x00, 0x31, 0x30, // string field: "10.0.0.191"
        0x2e, 0x30, 0x2e, 0x30, 0x2e, 0x31, 0x39, 0x31,
        //
        0x06, 0x00, 0x00, 0x00, 0x00, 0x08, // end data structure frame
        //
        0x12, 0x00, 0x00, 0x00, 0x00, 0x20, 0x35, 0x2e, // string frame with the final bit
        0x30, 0x2d, 0x53, 0x4e, 0x41, 0x50, 0x53, 0x48, 0x4f, 0x54,
    ]);

    let message = Message::from_bytes(message_bytes).expect("should have");
    assert_eq!(6, message.len());
    let first = message.frame_at(0);
    assert_eq!(0xC000, first.flags);
    let last = message.frame_at(5);
    assert_eq!(0x2000, last.flags);
}

#[test]
fn should_convert_to_response_from_message() {
    let mut content: Vec<u8> = Vec::new();
    content.extend_from_slice(&[
        0x1D, 0x4D, // flags
        0x01, 0x03, 0x1D, 0x00, // type
        1, 0, 0, 0, 0, 0, 0, 0, // correlation id
        0,  // backup acks
        36, 0, 0, 0, // payload
    ]);
    let initial = Frame::from(content, true);
    let message = Message::new(1, RESPONSE_TYPE, initial);
    let response =
        <Message as TryFrom<PnCounterGetReplicaCountResponse>>::try_from(message);
    let expected = PnCounterGetReplicaCountResponse::new(36);
    assert_eq!(expected, response.unwrap());
}

#[test]
fn test_unexpected_type_is_reported() {
    let initial = Frame::initial_frame(DEFAULT_FLAGS, 65535, 1);
    let message = Message::new(1, 65535, initial);
    let response =
        <Message as TryFrom<PnCounterGetReplicaCountResponse>>::try_from(message);
    assert_eq!(
        Err(HazelcastClientError::UnexpectedType { expected: RESPONSE_TYPE, actual: 65535 }),
        response
    );
}

#[test]
fn test_frame_payload() {
    let id = 1;
    let mut frame = Frame::initial_frame(UNFRAGMENTED_MESSAGE, 0x0A0B0C0D, id);
    let mut body: Vec<u8> = Vec::new();
    body.extend_from_slice(&(-1i32).to_le_bytes());
    body.push(36);
    frame.append_content(body);

    assert_eq!(
        frame.payload(false),
        [
            0, 0xC0, // flags
            0x0D, 0x0C, 0x0B, 0x0A, // type
            1, 0, 0, 0, 0, 0, 0, 0, // correlation id
            255, 255, 255, 255, // partition id
            36  // payload
        ]
    );

    assert_eq!(
        frame.payload(true),
        [
            0, 0xE0, // flags
            0x0D, 0x0C, 0x0B, 0x0A, // type
            1, 0, 0, 0, 0, 0, 0, 0, // correlation id
            255, 255, 255, 255, // partition id
            36  // payload
        ]
    );
}

#[test]
fn test_is_flag_set() {
    assert!(is_flag_set(0xffff, 1 << 10));
    assert!(!is_flag_set(0, 1 << 10));
    assert!(is_flag_set(0x3000, 1 << 13));
}

#[test]
fn test_message_iterator() {
    let content = vec![1, 2, 3, 4];
    let message = Message::new(1, 0, Frame::new(content, DEFAULT_FLAGS));
    let mut iter = message.iter();
    match iter.next_frame() {
        Ok(_) => assert!(true),
        Err(_) => assert!(false),
    }
}

#[test]
fn test_initial_frame() {
    let content = vec![
        0x00, 0x01, 0x1D, 0x00, // type
        1, 0, 0, 0, 0, 0, 0, 0, // correlation id
    ];

    let expected = Frame {
        content,
        flags: 0xE000,
        message_type: 0x1D0100,
        correlation_id: 1,
        is_first: true,
    };

    assert_eq!(expected, Frame::initial_frame(0xE000, 0x1D0100, 1));
}

#[test]
fn test_frame_id() {
    let frame = Frame::initial_frame(DEFAULT_FLAGS, 1, 369);
    assert_eq!(369, frame.id());
}

#[test]
fn test_frame_type() {
    let frame = Frame::initial_frame(DEFAULT_FLAGS, 1, 369);
    assert_eq!(1, frame.message_type());
}

#[test]
fn test_frame_from() {
    let mut content: Vec<u8> = Vec::new();
    content.extend_from_slice(&[
        0x1D, 0x4D, // flags
        0x00, 0x0E, 0x0E, 0x0E, // type
        22, 0, 0, 0, 0, 0, 0, 0, // correlation id
        255, 255, 255, 255, // partition id
        36, // payload
    ]);
    let frame = Frame::from(content, true);
    assert_eq!(0x4D1D, frame.flags);
    assert_eq!(22, frame.id());
}

#[test]
fn test_from_bytes_rejects_bad_length() {
    let mut bytes: Vec<u8> = Vec::new();
    bytes.extend_from_slice(&[5, 0, 0, 0, 0, 0]);
    bytes.extend_from_slice(&[0; 12]);
    assert_eq!(Err(DecodeError::BadFrameLength), Message::from_bytes(bytes));
}

#[test]
fn test_from_bytes_rejects_truncated() {
    let bytes = vec![0x10, 0x00];
    assert_eq!(Err(DecodeError::Truncated), Message::from_bytes(bytes));
}
