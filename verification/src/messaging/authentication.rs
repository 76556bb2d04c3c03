//! The authentication exchange executed once at connection establishment:
//! the request carrying the client's identity and credentials, and the
//! response carrying the member's identity and the authentication status.

use vstd::prelude::*;
use vstd::bytes::spec_u32_from_le_bytes;
use crate::codec::util::{
    decode_nullable, decode_string, decode_uuid, encode_list, encode_nullable, encode_string,
    encode_uuid, option_view, seq_views, spec_list_frames, spec_nullable_frames,
    spec_parse_nullable, spec_parse_string, spec_parse_uuid, spec_string_frames,
};
use crate::codec::{
    spec_i32_of_u32, spec_i32_to_le_bytes, spec_uuid_to_bytes, write_i32_le, write_u8, ByteReader,
    Uuid,
};
use crate::messaging::error::{spec_placeholder_exception, DecodeError, EXCEPTION_TYPE};
use crate::messaging::{Address, AddressView};
use crate::remote::message::{
    Frame, FrameReader, FrameView, Message, MessageView,
};
use crate::{HazelcastClientError, TryFrom};

verus! {

pub const AUTHENTICATION_REQUEST_TYPE: u32 = 0x100;

pub const AUTHENTICATION_RESPONSE_TYPE: u32 = 0x101;

/// Relies on `uuid::Uuid::new_v4`: a freshly generated random UUID,
/// returned as its two 64-bit halves. Nothing is promised of the value.
#[verifier::external_body]
fn fresh_uuid() -> (r: Uuid) {
    let (msb, lsb) = uuid::Uuid::new_v4().as_u64_pair();
    Uuid { msb, lsb }
}

/// The authentication request: the client's identity, credentials and
/// labels, plus a fresh client-side UUID.
#[derive(PartialEq, Eq, Debug)]
pub struct AuthenticationRequest {
    pub uuid: Uuid,
    pub serialization_version: u8,
    pub cluster_name: String,
    pub username: Option<String>,
    pub password: Option<String>,
    pub id: Option<String>,
    pub owner_id: Option<String>,
    pub owner_connection: bool,
    pub client_type: String,
    pub client_version: String,
    pub client_name: String,
    pub labels: Vec<String>,
}

impl AuthenticationRequest {
    /// A fresh request; the UUID is newly generated, so nothing is said
    /// of it.
    pub fn new(
        serialization_version: u8,
        cluster_name: String,
        username: Option<String>,
        password: Option<String>,
        client_type: String,
        client_version: String,
        client_name: String,
        labels: Vec<String>,
    ) -> (r: AuthenticationRequest)
        ensures
            r.serialization_version == serialization_version,
            r.cluster_name == cluster_name,
            r.username == username,
            r.password == password,
            r.id is None,
            r.owner_id is None,
            r.owner_connection,
            r.client_type == client_type,
            r.client_version == client_version,
            r.client_name == client_name,
            r.labels == labels,
    {
        AuthenticationRequest {
            uuid: fresh_uuid(),
            serialization_version,
            cluster_name,
            username,
            password,
            id: None,
            owner_id: None,
            owner_connection: true,
            client_type,
            client_version,
            client_name,
            labels,
        }
    }
}

/// Builds an authentication request message: partition-id placeholder,
/// client UUID and serialization version in the initial frame, then the
/// cluster name, the nullable credentials, the client identity strings,
/// and the label list.
pub fn encode_request(id: u64, request: AuthenticationRequest, initial_frame: Frame) -> (r:
    Message)
    ensures
        r@ == (MessageView {
            id,
            message_type: AUTHENTICATION_REQUEST_TYPE,
            frames: seq![
                (FrameView {
                    content: initial_frame@.content + spec_i32_to_le_bytes(-1i32)
                        + spec_uuid_to_bytes(request.uuid) + seq![request.serialization_version],
                    ..initial_frame@
                }),
            ] + spec_string_frames(request.cluster_name@) + spec_nullable_frames::<String>(
                option_view(request.username),
            ) + spec_nullable_frames::<String>(option_view(request.password)) + spec_string_frames(
                request.client_type@,
            ) + spec_string_frames(request.client_version@) + spec_string_frames(
                request.client_name@,
            ) + spec_list_frames::<String>(seq_views(request.labels@)),
        }),
{
    let AuthenticationRequest {
        uuid,
        serialization_version,
        cluster_name,
        username,
        password,
        id: _,
        owner_id: _,
        owner_connection: _,
        client_type,
        client_version,
        client_name,
        labels,
    } = request;
    let mut initial_frame = initial_frame;
    let ghost init0 = initial_frame@;
    let mut fields: Vec<u8> = Vec::new();
    write_i32_le(&mut fields, -1);
    encode_uuid(&mut fields, uuid);
    write_u8(&mut fields, serialization_version);
    proof {
        vstd::bytes::lemma_auto_spec_u32_to_from_le_bytes();
        vstd::bytes::lemma_auto_spec_u64_to_from_le_bytes();
        assert(fields@ =~= spec_i32_to_le_bytes(-1i32) + spec_uuid_to_bytes(uuid) + seq![
            serialization_version,
        ]);
    }
    initial_frame.append_content(fields);
    let mut message = Message::new(id, AUTHENTICATION_REQUEST_TYPE, initial_frame);
    encode_string(&mut message, cluster_name);
    encode_nullable::<String>(&mut message, username);
    encode_nullable::<String>(&mut message, password);
    encode_string(&mut message, client_type);
    encode_string(&mut message, client_version);
    encode_string(&mut message, client_name);
    encode_list::<String>(&mut message, labels);
    proof {
        assert(message@.frames =~~= seq![
            (FrameView {
                content: init0.content + spec_i32_to_le_bytes(-1i32) + spec_uuid_to_bytes(uuid)
                    + seq![serialization_version],
                ..init0
            }),
        ] + spec_string_frames(cluster_name@) + spec_nullable_frames::<String>(
            option_view(username),
        ) + spec_nullable_frames::<String>(option_view(password)) + spec_string_frames(
            client_type@,
        ) + spec_string_frames(client_version@) + spec_string_frames(client_name@)
            + spec_list_frames::<String>(seq_views(labels@)));
    }
    message
}

/// The outcome the member reports for an authentication attempt.
#[derive(Clone, Copy, PartialEq, Eq, Structural, Debug)]
pub enum AuthenticationStatus {
    Authenticated,
    CredentialsFailed,
    SerializationVersionMismatch,
    NotAllowedInCluster,
}

/// Mathematical image of an [`AuthenticationResponse`].
#[verifier::ext_equal]
pub ghost struct AuthenticationResponseView {
    pub status: u8,
    pub address: Option<AddressView>,
    pub member_uuid: Uuid,
    pub serialization_version: u8,
    pub hz_server_version: Seq<char>,
    pub partition_count: i32,
    pub cluster_id: Uuid,
    pub failover_supported: bool,
}

/// The authentication response: the raw status byte, the member's
/// endpoint and identity, and cluster parameters.
#[derive(PartialEq, Eq, Debug)]
pub struct AuthenticationResponse {
    pub status: u8,
    pub address: Option<Address>,
    pub member_uuid: Uuid,
    pub serialization_version: u8,
    pub hz_server_version: String,
    pub partition_count: i32,
    pub cluster_id: Uuid,
    pub failover_supported: bool,
}

impl View for AuthenticationResponse {
    type V = AuthenticationResponseView;

    open spec fn view(&self) -> AuthenticationResponseView {
        AuthenticationResponseView {
            status: self.status,
            address: option_view(self.address),
            member_uuid: self.member_uuid,
            serialization_version: self.serialization_version,
            hz_server_version: self.hz_server_version@,
            partition_count: self.partition_count,
            cluster_id: self.cluster_id,
            failover_supported: self.failover_supported,
        }
    }
}

impl AuthenticationResponse {
    /// The typed status, or a decode failure for a status byte outside
    /// the known range.
    pub fn status(&self) -> (r: Result<AuthenticationStatus, DecodeError>)
        ensures
            r == (match self.status {
                0u8 => Result::<AuthenticationStatus, DecodeError>::Ok(
                    AuthenticationStatus::Authenticated,
                ),
                1u8 => Result::<AuthenticationStatus, DecodeError>::Ok(
                    AuthenticationStatus::CredentialsFailed,
                ),
                2u8 => Result::<AuthenticationStatus, DecodeError>::Ok(
                    AuthenticationStatus::SerializationVersionMismatch,
                ),
                3u8 => Result::<AuthenticationStatus, DecodeError>::Ok(
                    AuthenticationStatus::NotAllowedInCluster,
                ),
                _ => Result::<AuthenticationStatus, DecodeError>::Err(
                    DecodeError::UnknownEnumValue,
                ),
            }),
    {
        match self.status {
            0 => Ok(AuthenticationStatus::Authenticated),
            1 => Ok(AuthenticationStatus::CredentialsFailed),
            2 => Ok(AuthenticationStatus::SerializationVersionMismatch),
            3 => Ok(AuthenticationStatus::NotAllowedInCluster),
            _ => Err(DecodeError::UnknownEnumValue),
        }
    }

    pub fn address(&self) -> (r: &Option<Address>)
        ensures
            r == &self.address,
    {
        &self.address
    }
}

/// The fields read from an authentication response: after the fixed
/// header of the initial frame come the status byte, the member UUID, the
/// serialization version, the partition count, the cluster UUID and the
/// failover marker; the remaining frames hold the nullable member
/// endpoint and the server version string. Both UUID fields must be
/// present, not null.
pub open spec fn spec_decode_auth_response(m: MessageView) -> Option<AuthenticationResponseView> {
    if m.frames.len() < 1 {
        None
    } else {
        let c = m.frames[0].content;
        if c.len() < 14 {
            None
        } else {
            let status = c[13];
            match spec_parse_uuid(c, 14) {
                Some((Some(member_uuid), p1)) => if p1 + 5 > c.len() {
                    None
                } else {
                    let serialization_version = c[p1];
                    let partition_count = spec_i32_of_u32(
                        spec_u32_from_le_bytes(c.subrange(p1 + 1, p1 + 5)),
                    );
                    match spec_parse_uuid(c, p1 + 5) {
                        Some((Some(cluster_id), p2)) => if p2 >= c.len() {
                            None
                        } else {
                            let failover_supported = c[p2] != 0;
                            match spec_parse_nullable::<Address>(m.frames, 1) {
                                Some((address, q)) => match spec_parse_string(m.frames, q) {
                                    Some((hz_server_version, _)) => Some(
                                        AuthenticationResponseView {
                                            status,
                                            address,
                                            member_uuid,
                                            serialization_version,
                                            hz_server_version,
                                            partition_count,
                                            cluster_id,
                                            failover_supported,
                                        },
                                    ),
                                    None => None,
                                },
                                None => None,
                            }
                        },
                        _ => None,
                    }
                },
                _ => None,
            }
        }
    }
}

/// Decodes an authentication response.
pub fn decode_response(message: Message) -> (res: Result<AuthenticationResponse, DecodeError>)
    ensures
        match spec_decode_auth_response(message@) {
            Some(v) => res matches Ok(x) && x@ == v,
            None => res is Err,
        },
{
    let mut r = FrameReader::new(message);
    let initial = match r.next_frame() {
        Ok(f) => f,
        Err(e) => {
            return Err(e);
        },
    };
    let mut initial = initial;
    let mut content = ByteReader::new(initial.content());
    match content.advance(13) {
        Ok(_) => {},
        Err(e) => {
            return Err(e);
        },
    }
    let status = match content.read_u8() {
        Ok(v) => v,
        Err(e) => {
            return Err(e);
        },
    };
    let member_uuid = match decode_uuid(&mut content) {
        Ok(Some(u)) => u,
        Ok(None) => {
            return Err(DecodeError::NullValue);
        },
        Err(e) => {
            return Err(e);
        },
    };
    let serialization_version = match content.read_u8() {
        Ok(v) => v,
        Err(e) => {
            return Err(e);
        },
    };
    let partition_count = match content.read_i32_le() {
        Ok(v) => v,
        Err(e) => {
            return Err(e);
        },
    };
    let cluster_id = match decode_uuid(&mut content) {
        Ok(Some(u)) => u,
        Ok(None) => {
            return Err(DecodeError::NullValue);
        },
        Err(e) => {
            return Err(e);
        },
    };
    let failover_supported = match content.read_bool() {
        Ok(v) => v,
        Err(e) => {
            return Err(e);
        },
    };
    let address = match decode_nullable::<Address>(&mut r) {
        Ok(v) => v,
        Err(e) => {
            return Err(e);
        },
    };
    let hz_server_version = match decode_string(&mut r) {
        Ok(v) => v,
        Err(e) => {
            return Err(e);
        },
    };
    Ok(
        AuthenticationResponse {
            status,
            address,
            member_uuid,
            serialization_version,
            hz_server_version,
            partition_count,
            cluster_id,
            failover_supported,
        },
    )
}

impl TryFrom<AuthenticationResponse> for Message {
    type Error = HazelcastClientError;

    open spec fn conversion_spec(
        &self,
        r: Result<AuthenticationResponse, HazelcastClientError>,
    ) -> bool {
        if self@.message_type == AUTHENTICATION_RESPONSE_TYPE {
            match spec_decode_auth_response(self@) {
                Some(v) => r matches Ok(x) && x@ == v,
                None => r matches Err(HazelcastClientError::Decode(_)),
            }
        } else if self@.message_type == EXCEPTION_TYPE {
            r matches Err(HazelcastClientError::ServerFailure(e)) && spec_placeholder_exception(e)
        } else {
            r == Result::<AuthenticationResponse, HazelcastClientError>::Err(
                HazelcastClientError::UnexpectedType {
                    expected: AUTHENTICATION_RESPONSE_TYPE,
                    actual: self@.message_type,
                },
            )
        }
    }

    fn try_from(self) -> (r: Result<AuthenticationResponse, HazelcastClientError>) {
        let actual = self.message_type();
        if actual == AUTHENTICATION_RESPONSE_TYPE {
            match decode_response(self) {
                Ok(x) => Ok(x),
                Err(e) => Err(HazelcastClientError::Decode(e)),
            }
        } else if actual == EXCEPTION_TYPE {
            Err(
                HazelcastClientError::ServerFailure(
                    crate::messaging::error::decode_response(self),
                ),
            )
        } else {
            Err(
                HazelcastClientError::UnexpectedType {
                    expected: AUTHENTICATION_RESPONSE_TYPE,
                    actual,
                },
            )
        }
    }
}


/// A message whose type equals the generic failure type, arriving where
/// this operation's response was expected, converts to a server-failure
/// result carried back to the caller, never to a typed value and never to
/// a crash.
pub proof fn lemma_failure_type_yields_server_failure(
    m: Message,
    r: Result<AuthenticationResponse, HazelcastClientError>,
)
    requires
        m@.message_type == EXCEPTION_TYPE,
        m.conversion_spec(r),
    ensures
        r matches Err(HazelcastClientError::ServerFailure(e)) && spec_placeholder_exception(e),
{
}

} // verus!
