use hazelcast_client::codec::custom::encode_replica_timestamp_list;
use hazelcast_client::codec::Uuid;
use hazelcast_client::messaging::pn_counter::{pn_counter_add, pn_counter_get,
    pn_counter_get_replica_count};
use hazelcast_client::messaging::ping;
use hazelcast_client::remote::message::{Frame, Message, DEFAULT_FLAGS};
use hazelcast_client::{HazelcastClientError, TryFrom};

fn random_uuid() -> Uuid {
    let (msb, lsb) = uuid::Uuid::new_v4().as_u64_pair();
    Uuid { msb, lsb }
}

#[test]
fn test_ping_encode_request() {
    let initial_frame = Frame::initial_frame(DEFAULT_FLAGS, ping::PING_REQUEST_TYPE, 1);
    let message = ping::encode_request(1, ping::PingRequest::new(), initial_frame);
    assert_eq!(1, message.len());
}

#[test]
fn test_encode_get_request() {
    let target_uuid = random_uuid();
    let initial_frame = Frame::initial_frame(DEFAULT_FLAGS, pn_counter_get::REQUEST_TYPE, 1);
    let req = pn_counter_get::PnCounterGetRequest::new(
        "my_pn_counter".to_string(),
        Vec::new(),
        target_uuid,
    );
    let message = pn_counter_get::encode_request(1, req, initial_frame);

    assert_eq!(3, message.len());
    message.frame_at(0); // the initial frame
    message.frame_at(1); // the counter name
    message.frame_at(2); // the replica timestamps
}

#[test]
fn test_decode_get_response() {
    let mut initial_frame =
        Frame::initial_frame(DEFAULT_FLAGS, pn_counter_get::RESPONSE_TYPE, 1);
    let mut fields: Vec<u8> = Vec::new();
    fields.push(0); // backup acks
    fields.extend_from_slice(&10i64.to_le_bytes()); // value
    fields.extend_from_slice(&1i32.to_le_bytes()); // replica count
    initial_frame.append_content(fields);
    let mut message = Message::new(1, pn_counter_get::RESPONSE_TYPE, initial_frame);

    encode_replica_timestamp_list(&mut message, &Vec::new());

    let actual = pn_counter_get::decode_response(message).expect("should decode");
    assert_eq!(pn_counter_get::PnCounterGetResponse::new(10, Vec::new()), actual);
}

#[test]
fn test_encode_add_request() {
    let target_uuid = random_uuid();
    let initial_frame = Frame::initial_frame(DEFAULT_FLAGS, pn_counter_add::REQUEST_TYPE, 1);
    let req = pn_counter_add::PnCounterAddRequest::new(
        "my_counter".to_string(),
        45,
        true,
        Vec::new(),
        target_uuid,
    );
    let message = pn_counter_add::encode_request(1, req, initial_frame);

    assert_eq!(3, message.len());
    message.frame_at(0); // the initial frame
    message.frame_at(1); // the counter name
    message.frame_at(2); // the replica timestamps
}

#[test]
fn test_decode_add_response() {
    let mut initial_frame =
        Frame::initial_frame(DEFAULT_FLAGS, pn_counter_add::RESPONSE_TYPE, 1);
    let mut fields: Vec<u8> = Vec::new();
    fields.push(0); // backup acks
    fields.extend_from_slice(&10i64.to_le_bytes()); // value
    fields.extend_from_slice(&1i32.to_le_bytes()); // replica count
    initial_frame.append_content(fields);
    let mut message = Message::new(1, pn_counter_add::RESPONSE_TYPE, initial_frame);

    encode_replica_timestamp_list(&mut message, &Vec::new());

    let actual = pn_counter_add::decode_response(message).expect("should decode");
    assert_eq!(
        pn_counter_add::PnCounterAddResponse::new(10, Vec::new(), 1),
        actual
    );
}

#[test]
fn test_encode_get_replica_count_request() {
    let initial_frame =
        Frame::initial_frame(DEFAULT_FLAGS, pn_counter_get_replica_count::REQUEST_TYPE, 1);
    let req = pn_counter_get_replica_count::PnCounterGetReplicaCountRequest::new(
        "my_counter".to_string(),
    );
    let message = pn_counter_get_replica_count::encode_request(1, req, initial_frame);

    assert_eq!(2, message.len());
    message.frame_at(0); // the initial frame
    message.frame_at(1); // the counter name
}

#[test]
fn test_decode_get_replica_count_response() {
    let mut initial_frame =
        Frame::initial_frame(DEFAULT_FLAGS, pn_counter_get_replica_count::RESPONSE_TYPE, 1);
    let mut fields: Vec<u8> = Vec::new();
    fields.push(0); // backup acks
    fields.extend_from_slice(&1i32.to_le_bytes()); // count
    initial_frame.append_content(fields);
    let message =
        Message::new(1, pn_counter_get_replica_count::RESPONSE_TYPE, initial_frame);

    let actual =
        pn_counter_get_replica_count::decode_response(message).expect("should decode");
    assert_eq!(
        pn_counter_get_replica_count::PnCounterGetReplicaCountResponse::new(1),
        actual
    );
}

#[test]
fn test_failure_type_yields_server_failure() {
    // the generic failure type where a replica-count response was expected
    let initial = Frame::initial_frame(DEFAULT_FLAGS, 0, 1);
    let message = Message::new(1, 0, initial);
    let response = <Message as TryFrom<
        pn_counter_get_replica_count::PnCounterGetReplicaCountResponse,
    >>::try_from(message);
    assert!(matches!(
        response,
        Err(HazelcastClientError::ServerFailure(_))
    ));
}

#[test]
fn test_malformed_response_yields_decode_error() {
    // the right type, but a body too short for the count field
    let initial = Frame::initial_frame(
        DEFAULT_FLAGS,
        pn_counter_get_replica_count::RESPONSE_TYPE,
        1,
    );
    let message = Message::new(1, pn_counter_get_replica_count::RESPONSE_TYPE, initial);
    let response = <Message as TryFrom<
        pn_counter_get_replica_count::PnCounterGetReplicaCountResponse,
    >>::try_from(message);
    assert!(matches!(response, Err(HazelcastClientError::Decode(_))));
}

#[test]
fn test_decode_get_response_truncated() {
    let initial_frame = Frame::initial_frame(DEFAULT_FLAGS, pn_counter_get::RESPONSE_TYPE, 1);
    let message = Message::new(1, pn_counter_get::RESPONSE_TYPE, initial_frame);
    assert!(pn_counter_get::decode_response(message).is_err());
}
