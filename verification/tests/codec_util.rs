use hazelcast_client::codec::util::{
    decode_list, decode_nullable, decode_string, decode_uuid, encode_list, encode_nullable,
    encode_string, encode_uuid,
};
use hazelcast_client::codec::{ByteReader, Uuid};
use hazelcast_client::messaging::error::DecodeError;
use hazelcast_client::remote::message::{Frame, FrameReader, Message, DEFAULT_FLAGS};

fn library_uuid(text: &str) -> Uuid {
    let parsed = uuid::Uuid::parse_str(text).unwrap();
    let (msb, lsb) = parsed.as_u64_pair();
    Uuid { msb, lsb }
}

#[test]
fn test_encode_string() {
    let content = vec![1, 2, 3, 4];
    let mut message = Message::new(1, 0, Frame::new(content, DEFAULT_FLAGS));

    encode_string(&mut message, "this is a value".to_string());

    let expected = Frame::new("this is a value".as_bytes().to_vec(), DEFAULT_FLAGS);
    assert_eq!(expected, *message.frame_at(1));
}

#[test]
fn test_decode_string() {
    let expected = "localhost".to_string();
    let message = Message::new(
        1,
        0,
        Frame::new("localhost".as_bytes().to_vec(), DEFAULT_FLAGS),
    );

    let mut reader = FrameReader::new(message);
    let actual = decode_string(&mut reader).expect("should decode");
    assert_eq!(expected, actual);
}

#[test]
fn test_decode_string_rejects_invalid_utf8() {
    let message = Message::new(1, 0, Frame::new(vec![0xff, 0xfe], DEFAULT_FLAGS));
    let mut reader = FrameReader::new(message);
    assert_eq!(Err(DecodeError::InvalidUtf8), decode_string(&mut reader));
}

#[test]
fn test_decode_string_without_frame() {
    let message = Message::new(1, 0, Frame::new(Vec::new(), DEFAULT_FLAGS));
    let mut reader = FrameReader::new(message);
    decode_string(&mut reader).expect("first frame present");
    assert_eq!(Err(DecodeError::MissingFrame), decode_string(&mut reader));
}

#[test]
fn test_encode_nullable() {
    let mut message = Message::new(1, 0, Frame::initial_frame(DEFAULT_FLAGS, 111, 1));
    encode_nullable::<String>(&mut message, Some("my val".to_string()));
    encode_nullable::<String>(&mut message, None);

    assert!(!message.frame_at(1).is_null_frame());
    assert!(message.frame_at(2).is_null_frame());
}

#[test]
fn test_decode_nullable() {
    let message = Message::new(1, 0, Frame::initial_frame(DEFAULT_FLAGS, 111, 1));
    let mut reader = FrameReader::new(message);
    let actual = decode_nullable::<String>(&mut reader).expect("should decode");
    assert!(actual.is_some());

    let empty = Message::new(1, 0, Frame::new(Vec::new(), DEFAULT_FLAGS));
    let mut reader = FrameReader::new(empty);
    let _ = reader.next_frame().expect("only frame");
    let actual = decode_nullable::<String>(&mut reader).expect("should decode");
    assert_eq!(None, actual);
}

#[test]
fn test_nullable_round_trip() {
    let mut message = Message::new(1, 0, Frame::initial_frame(DEFAULT_FLAGS, 111, 1));
    encode_nullable::<String>(&mut message, Some("present".to_string()));

    let mut reader = FrameReader::new(message);
    let _ = reader.next_frame().expect("initial frame");
    let actual = decode_nullable::<String>(&mut reader).expect("should decode");
    assert_eq!(Some("present".to_string()), actual);
}

#[test]
fn test_encode_list() {
    let mut message = Message::new(1, 0, Frame::initial_frame(DEFAULT_FLAGS, 111, 1));
    let list = vec!["item1".to_string(), "item2".to_string(), "item3".to_string()];
    encode_list::<String>(&mut message, list);

    let expected = Frame::new("item2".as_bytes().to_vec(), DEFAULT_FLAGS);

    assert!(message.frame_at(1).is_begin_frame());
    assert_eq!(expected, *message.frame_at(3));
    assert!(message.frame_at(5).is_end_frame());
}

#[test]
fn test_list_round_trip() {
    let mut message = Message::new(1, 0, Frame::initial_frame(DEFAULT_FLAGS, 111, 1));
    let list = vec!["one".to_string(), "two".to_string(), "three".to_string()];
    encode_list::<String>(&mut message, list.clone());

    let mut reader = FrameReader::new(message);
    let _ = reader.next_frame().expect("initial frame");
    let actual = decode_list::<String>(&mut reader).expect("should decode");
    assert_eq!(list, actual);
}

#[test]
fn test_decode_list_without_end_marker() {
    let mut message = Message::new(1, 0, Frame::initial_frame(DEFAULT_FLAGS, 111, 1));
    message.add(Frame::new(Vec::new(), 0x1000));
    message.add(Frame::new("dangling".as_bytes().to_vec(), DEFAULT_FLAGS));

    let mut reader = FrameReader::new(message);
    let _ = reader.next_frame().expect("initial frame");
    assert_eq!(
        Err(DecodeError::MissingFrame),
        decode_list::<String>(&mut reader)
    );
}

#[test]
fn test_encode_uuid() {
    let mut fields: Vec<u8> = Vec::new();
    let uuid = library_uuid("eb66c416-4739-465b-9af3-9dc33ed8eef9");
    encode_uuid(&mut fields, uuid);
    assert_eq!(
        vec![
            0u8, // not null
            0x5b, 0x46, 0x39, 0x47, 0x16, 0xc4, 0x66, 0xeb, // most-significant half
            0xf9, 0xee, 0xd8, 0x3e, 0xc3, 0x9d, 0xf3, 0x9a, // least-significant half
        ],
        fields
    );
}

#[test]
fn test_decode_uuid() {
    let mut fields: Vec<u8> = Vec::new();
    let expected = library_uuid("11141552-8456-4b0f-aa95-559c81a19f48");
    encode_uuid(&mut fields, expected);
    let mut reader = ByteReader::new(fields);
    let actual = decode_uuid(&mut reader).expect("should decode");
    assert_eq!(expected, actual.expect("Should have UUID"));
}

#[test]
fn test_decode_uuid_null_marker() {
    let mut reader = ByteReader::new(vec![1]);
    assert_eq!(Ok(None), decode_uuid(&mut reader));
}

#[test]
fn test_decode_uuid_truncated() {
    let mut reader = ByteReader::new(vec![0, 1, 2, 3]);
    assert_eq!(Err(DecodeError::Truncated), decode_uuid(&mut reader));
}

#[test]
fn test_byte_reader_primitives_round_trip() {
    let mut buf: Vec<u8> = Vec::new();
    hazelcast_client::codec::write_u8(&mut buf, 7);
    hazelcast_client::codec::write_bool(&mut buf, true);
    hazelcast_client::codec::write_u16_le(&mut buf, 0x1234);
    hazelcast_client::codec::write_u32_le(&mut buf, 0xDEADBEEF);
    hazelcast_client::codec::write_u64_le(&mut buf, 0x0123456789ABCDEF);
    hazelcast_client::codec::write_i32_le(&mut buf, -42);
    hazelcast_client::codec::write_i64_le(&mut buf, -1_000_000_007);

    let mut reader = ByteReader::new(buf);
    assert_eq!(Ok(7), reader.read_u8());
    assert_eq!(Ok(true), reader.read_bool());
    assert_eq!(Ok(0x1234), reader.read_u16_le());
    assert_eq!(Ok(0xDEADBEEF), reader.read_u32_le());
    assert_eq!(Ok(0x0123456789ABCDEF), reader.read_u64_le());
    assert_eq!(Ok(-42), reader.read_i32_le());
    assert_eq!(Ok(-1_000_000_007), reader.read_i64_le());
    assert_eq!(0, reader.remaining());
    assert_eq!(Err(DecodeError::Truncated), reader.read_u8());
}

#[test]
fn test_string_round_trip_multibyte() {
    let mut message = Message::new(1, 0, Frame::initial_frame(DEFAULT_FLAGS, 111, 1));
    encode_string(&mut message, "h\u{e9}llo w\u{f6}rld".to_string());
    let mut reader = FrameReader::new(message);
    let _ = reader.next_frame().expect("initial frame");
    assert_eq!("h\u{e9}llo w\u{f6}rld", decode_string(&mut reader).expect("should decode"));
}
