use hazelcast_client::codec::util::{encode_string, encode_uuid};
use hazelcast_client::codec::Uuid;
use hazelcast_client::messaging::authentication::{
    decode_response, encode_request, AuthenticationRequest, AuthenticationResponse,
    AuthenticationStatus, AUTHENTICATION_REQUEST_TYPE,
};
use hazelcast_client::messaging::error::DecodeError;
use hazelcast_client::messaging::Address;
use hazelcast_client::remote::message::{
    Frame, Message, BEGIN_DATA_STRUCTURE_FLAG, DEFAULT_FLAGS, END_DATA_STRUCTURE_FLAG,
};

fn random_uuid() -> Uuid {
    let (msb, lsb) = uuid::Uuid::new_v4().as_u64_pair();
    Uuid { msb, lsb }
}

#[test]
fn test_encode_request() {
    let initial_frame = Frame::initial_frame(DEFAULT_FLAGS, AUTHENTICATION_REQUEST_TYPE, 1);
    let req = AuthenticationRequest::new(
        1,
        "dev".to_string(),
        Some("user".to_string()),
        Some("pass".to_string()),
        "rust".to_string(),
        "5.0".to_string(),
        "hz_client".to_string(),
        vec!["item".to_string()],
    );
    let message = encode_request(1, req, initial_frame);

    assert_eq!(10, message.len());
    message.frame_at(0); // the initial frame
    message.frame_at(1); // the cluster name
    message.frame_at(2); // the username
    message.frame_at(3); // the password
    message.frame_at(4); // the client type
    message.frame_at(5); // the client version
    message.frame_at(6); // the client name
    assert!(message.frame_at(7).is_begin_frame());
    message.frame_at(8); // the label
    assert!(message.frame_at(9).is_end_frame());
}

#[test]
fn test_decode_response() {
    let status = 0u8;
    let address = Some(Address::new("localhost".to_string(), 5701));

    let mut initial_frame = Frame::initial_frame(DEFAULT_FLAGS, 0x101, 1);
    let mut fields: Vec<u8> = Vec::new();
    fields.push(0); // backup ack count
    fields.push(status);
    let member_uuid = random_uuid();
    encode_uuid(&mut fields, member_uuid);
    fields.push(1); // serialization version
    fields.extend_from_slice(&271i32.to_le_bytes());
    let cluster_id = random_uuid();
    encode_uuid(&mut fields, cluster_id);
    fields.push(0); // failover not supported
    initial_frame.append_content(fields);
    let mut message = Message::new(1, 0x101, initial_frame);

    // address
    message.add(Frame::new(Vec::new(), BEGIN_DATA_STRUCTURE_FLAG));
    message.add(Frame::new(5701i32.to_le_bytes().to_vec(), DEFAULT_FLAGS));
    encode_string(&mut message, "localhost".to_string());
    message.add(Frame::new(Vec::new(), END_DATA_STRUCTURE_FLAG));

    encode_string(&mut message, "5.0".to_string());

    let actual = decode_response(message).expect("should decode");
    assert_eq!(
        AuthenticationResponse {
            status,
            address,
            member_uuid,
            serialization_version: 1,
            hz_server_version: "5.0".to_string(),
            partition_count: 271,
            cluster_id,
            failover_supported: false,
        },
        actual
    );
}

#[test]
fn test_status_mapping() {
    let mut response = AuthenticationResponse {
        status: 0,
        address: None,
        member_uuid: random_uuid(),
        serialization_version: 1,
        hz_server_version: "5.0".to_string(),
        partition_count: 1,
        cluster_id: random_uuid(),
        failover_supported: false,
    };
    assert_eq!(Ok(AuthenticationStatus::Authenticated), response.status());
    response.status = 1;
    assert_eq!(Ok(AuthenticationStatus::CredentialsFailed), response.status());
    response.status = 2;
    assert_eq!(
        Ok(AuthenticationStatus::SerializationVersionMismatch),
        response.status()
    );
    response.status = 3;
    assert_eq!(Ok(AuthenticationStatus::NotAllowedInCluster), response.status());
    response.status = 9;
    assert_eq!(Err(DecodeError::UnknownEnumValue), response.status());
}

#[test]
fn test_decode_response_null_member_uuid() {
    let mut initial_frame = Frame::initial_frame(DEFAULT_FLAGS, 0x101, 1);
    let mut fields: Vec<u8> = Vec::new();
    fields.push(0); // backup ack count
    fields.push(0); // status
    fields.push(1); // a null marker where the member UUID is demanded
    initial_frame.append_content(fields);
    let message = Message::new(1, 0x101, initial_frame);
    assert_eq!(Err(DecodeError::NullValue), decode_response(message));
}
