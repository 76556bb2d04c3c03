use hazelcast_client::codec::custom::{
    decode_address, decode_replica_timestamp_list, encode_replica_timestamp_list,
};
use hazelcast_client::codec::util::encode_uuid;
use hazelcast_client::codec::{ByteReader, Uuid};
use hazelcast_client::messaging::error::DecodeError;
use hazelcast_client::messaging::{Address, ReplicaTimestampEntry};
use hazelcast_client::remote::message::{
    Frame, FrameReader, Message, BEGIN_DATA_STRUCTURE_FLAG, DEFAULT_FLAGS,
    END_DATA_STRUCTURE_FLAG,
};

fn random_uuid() -> Uuid {
    let (msb, lsb) = uuid::Uuid::new_v4().as_u64_pair();
    Uuid { msb, lsb }
}

#[test]
fn test_decode_address() {
    let mut message = Message::new(1, 0, Frame::new(Vec::new(), BEGIN_DATA_STRUCTURE_FLAG));
    message.add(Frame::new(5701i32.to_le_bytes().to_vec(), DEFAULT_FLAGS));
    message.add(Frame::new("localhost".as_bytes().to_vec(), DEFAULT_FLAGS));
    message.add(Frame::new(Vec::new(), END_DATA_STRUCTURE_FLAG));

    let mut reader = FrameReader::new(message);
    let actual = decode_address(&mut reader).expect("should decode");
    assert_eq!(Address::new("localhost".to_string(), 5701), actual);
}

#[test]
fn test_encode_replica_timestamp_list() {
    let entry = ReplicaTimestampEntry::new(random_uuid(), 1001);
    let entry1 = ReplicaTimestampEntry::new(random_uuid(), 1011);
    let entry2 = ReplicaTimestampEntry::new(random_uuid(), 1111);
    let entries = vec![entry, entry1, entry2];

    let mut message = Message::new(1, 0, Frame::new(vec![1, 2, 3, 4], DEFAULT_FLAGS));

    encode_replica_timestamp_list(&mut message, &entries);

    assert_eq!(2, message.len());
    assert_eq!(75, message.frame_at(1).content.len());
}

#[test]
fn test_decode_replica_timestamp_list() {
    let entry = ReplicaTimestampEntry::new(random_uuid(), 1001);
    let entry1 = ReplicaTimestampEntry::new(random_uuid(), 1011);
    let entry2 = ReplicaTimestampEntry::new(random_uuid(), 1111);
    let entries = vec![entry, entry1, entry2];

    let mut message = Message::new(1, 0, Frame::new(vec![1, 2, 3, 4], DEFAULT_FLAGS));

    encode_replica_timestamp_list(&mut message, &entries);

    let mut reader = FrameReader::new(message);
    let _ = reader.next_frame().expect("initial frame");
    let actual = decode_replica_timestamp_list(&mut reader).expect("should decode");
    assert_eq!(entries, actual);
}

#[test]
fn test_decode_replica_timestamp_list_null_key() {
    let mut content: Vec<u8> = vec![0; 25];
    content[0] = 1; // a null marker where a key is demanded
    let message = Message::new(1, 0, Frame::new(content, DEFAULT_FLAGS));
    let mut reader = FrameReader::new(message);
    assert_eq!(
        Err(DecodeError::NullValue),
        decode_replica_timestamp_list(&mut reader)
    );
}

#[test]
fn should_write_replica_timestamp_entry() {
    let key = random_uuid();
    let replica_timestamp = ReplicaTimestampEntry::new(key, 69);

    let mut message = Message::new(1, 0, Frame::new(Vec::new(), DEFAULT_FLAGS));
    encode_replica_timestamp_list(&mut message, &vec![replica_timestamp]);

    let mut bytes = ByteReader::new(message.frame_at(1).content.clone());
    let read_key = hazelcast_client::codec::util::decode_uuid(&mut bytes)
        .expect("should decode")
        .expect("key present");
    assert_eq!(read_key, replica_timestamp.key());
    assert_eq!(bytes.read_i64_le(), Ok(69));
}

#[test]
fn should_read_replica_timestamp_entry() {
    let key = random_uuid();
    let value = 12;

    let mut content: Vec<u8> = Vec::new();
    encode_uuid(&mut content, key);
    content.extend_from_slice(&(value as i64).to_le_bytes());

    let message = Message::new(1, 0, Frame::new(content, DEFAULT_FLAGS));
    let mut reader = FrameReader::new(message);
    let actual = decode_replica_timestamp_list(&mut reader).expect("should decode");
    assert_eq!(vec![ReplicaTimestampEntry::new(key, value)], actual);
}
