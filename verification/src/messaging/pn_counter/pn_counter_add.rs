//! The counter-add operation: request carrying the delta and whether the
//! pre-update value is wanted, response carrying the resulting value, the
//! replicas' timestamps, and the replica count.

use vstd::prelude::*;
use vstd::bytes::{spec_u32_from_le_bytes, spec_u64_from_le_bytes};
use crate::codec::custom::{
    decode_replica_timestamp_list, encode_replica_timestamp_list, spec_parse_replica_list,
    spec_replica_list_bytes,
};
use crate::codec::util::{encode_string, encode_uuid, plain_frame, spec_string_frames};
use crate::codec::{
    spec_bool_to_byte, spec_i32_of_u32, spec_i32_to_le_bytes, spec_i64_of_u64,
    spec_i64_to_le_bytes, spec_uuid_to_bytes, write_bool, write_i32_le, write_i64_le, ByteReader,
    Uuid,
};
use crate::messaging::error::{spec_placeholder_exception, DecodeError, EXCEPTION_TYPE};
use crate::messaging::ReplicaTimestampEntry;
use crate::remote::message::{
    Frame, FrameReader, FrameView, Message, MessageView, DEFAULT_FLAGS,
};
use crate::{HazelcastClientError, TryFrom};

verus! {

pub const REQUEST_TYPE: u32 = 0x1D0200;

pub const RESPONSE_TYPE: u32 = 0x1D0201;

/// A request to add a delta to the counter.
#[derive(PartialEq, Eq, Debug)]
pub struct PnCounterAddRequest {
    pub name: String,
    pub delta: i64,
    pub get_before_update: bool,
    pub replica_timestamps: Vec<ReplicaTimestampEntry>,
    pub target_uuid: Uuid,
}

impl PnCounterAddRequest {
    pub fn new(
        name: String,
        delta: i64,
        get_before_update: bool,
        replica_timestamps: Vec<ReplicaTimestampEntry>,
        target_uuid: Uuid,
    ) -> (r: PnCounterAddRequest)
        ensures
            r.name == name,
            r.delta == delta,
            r.get_before_update == get_before_update,
            r.replica_timestamps == replica_timestamps,
            r.target_uuid == target_uuid,
    {
        PnCounterAddRequest { name, delta, get_before_update, replica_timestamps, target_uuid }
    }
}

/// Builds a counter-add request message: partition-id placeholder, delta,
/// pre-update marker and target replica UUID in the initial frame, then
/// the counter name and the packed replica timestamps.
pub fn encode_request(id: u64, request: PnCounterAddRequest, initial_frame: Frame) -> (r: Message)
    ensures
        r@ == (MessageView {
            id,
            message_type: REQUEST_TYPE,
            frames: seq![
                (FrameView {
                    content: initial_frame@.content + spec_i32_to_le_bytes(-1i32)
                        + spec_i64_to_le_bytes(request.delta) + seq![
                        spec_bool_to_byte(request.get_before_update),
                    ] + spec_uuid_to_bytes(request.target_uuid),
                    ..initial_frame@
                }),
            ] + spec_string_frames(request.name@) + seq![
                plain_frame(
                    spec_replica_list_bytes(request.replica_timestamps@),
                    DEFAULT_FLAGS,
                ),
            ],
        }),
{
    let PnCounterAddRequest { name, delta, get_before_update, replica_timestamps, target_uuid } =
        request;
    let mut initial_frame = initial_frame;
    let ghost init0 = initial_frame@;
    let mut fields: Vec<u8> = Vec::new();
    write_i32_le(&mut fields, -1);
    write_i64_le(&mut fields, delta);
    write_bool(&mut fields, get_before_update);
    encode_uuid(&mut fields, target_uuid);
    proof {
        vstd::bytes::lemma_auto_spec_u32_to_from_le_bytes();
        vstd::bytes::lemma_auto_spec_u64_to_from_le_bytes();
        assert(fields@ =~= spec_i32_to_le_bytes(-1i32) + spec_i64_to_le_bytes(delta) + seq![
            spec_bool_to_byte(get_before_update),
        ] + spec_uuid_to_bytes(target_uuid));
    }
    initial_frame.append_content(fields);
    let mut message = Message::new(id, REQUEST_TYPE, initial_frame);
    encode_string(&mut message, name);
    encode_replica_timestamp_list(&mut message, &replica_timestamps);
    proof {
        assert(message@.frames =~~= seq![
            (FrameView {
                content: init0.content + spec_i32_to_le_bytes(-1i32) + spec_i64_to_le_bytes(delta)
                    + seq![spec_bool_to_byte(get_before_update)] + spec_uuid_to_bytes(target_uuid),
                ..init0
            }),
        ] + spec_string_frames(name@) + seq![
            plain_frame(spec_replica_list_bytes(replica_timestamps@), DEFAULT_FLAGS),
        ]);
    }
    message
}

/// A counter-add response: the resulting value, the replicas' current
/// timestamps, and the replica count.
#[derive(PartialEq, Eq, Debug)]
pub struct PnCounterAddResponse {
    pub value: i64,
    pub replica_timestamps: Vec<ReplicaTimestampEntry>,
    pub replica_count: i32,
}

impl PnCounterAddResponse {
    pub fn new(
        value: i64,
        replica_timestamps: Vec<ReplicaTimestampEntry>,
        replica_count: i32,
    ) -> (r: PnCounterAddResponse)
        ensures
            r.value == value,
            r.replica_timestamps == replica_timestamps,
            r.replica_count == replica_count,
    {
        PnCounterAddResponse { value, replica_timestamps, replica_count }
    }

    pub fn value(&self) -> (r: i64)
        ensures
            r == self.value,
    {
        self.value
    }

    pub fn replica_timestamps(&self) -> (r: &Vec<ReplicaTimestampEntry>)
        ensures
            r == &self.replica_timestamps,
    {
        &self.replica_timestamps
    }
}

/// The fields read from a counter-add response: value and replica count
/// after the fixed header of the initial frame, then the packed timestamp
/// records in the next frame.
pub open spec fn spec_decode_add_response(m: MessageView) -> Option<
    (i64, Seq<ReplicaTimestampEntry>, i32),
> {
    if m.frames.len() < 1 {
        None
    } else {
        let c = m.frames[0].content;
        if c.len() < 25 {
            None
        } else {
            let value = spec_i64_of_u64(spec_u64_from_le_bytes(c.subrange(13, 21)));
            let replica_count = spec_i32_of_u32(spec_u32_from_le_bytes(c.subrange(21, 25)));
            match spec_parse_replica_list(m.frames, 1) {
                Some((es, p)) => Some((value, es, replica_count)),
                None => None,
            }
        }
    }
}

/// Decodes a counter-add response.
pub fn decode_response(message: Message) -> (res: Result<PnCounterAddResponse, DecodeError>)
    ensures
        match spec_decode_add_response(message@) {
            Some((value, es, replica_count)) => res matches Ok(x) && x.value == value
                && x.replica_timestamps@ == es && x.replica_count == replica_count,
            None => res is Err,
        },
{
    let mut r = FrameReader::new(message);
    let initial = match r.next_frame() {
        Ok(f) => f,
        Err(e) => {
            return Err(e);
        },
    };
    let mut initial = initial;
    let mut content = ByteReader::new(initial.content());
    match content.advance(13) {
        Ok(_) => {},
        Err(e) => {
            return Err(e);
        },
    }
    let value = match content.read_i64_le() {
        Ok(v) => v,
        Err(e) => {
            return Err(e);
        },
    };
    let replica_count = match content.read_i32_le() {
        Ok(v) => v,
        Err(e) => {
            return Err(e);
        },
    };
    let replica_timestamps = match decode_replica_timestamp_list(&mut r) {
        Ok(v) => v,
        Err(e) => {
            return Err(e);
        },
    };
    Ok(PnCounterAddResponse::new(value, replica_timestamps, replica_count))
}

impl TryFrom<PnCounterAddResponse> for Message {
    type Error = HazelcastClientError;

    open spec fn conversion_spec(
        &self,
        r: Result<PnCounterAddResponse, HazelcastClientError>,
    ) -> bool {
        if self@.message_type == RESPONSE_TYPE {
            match spec_decode_add_response(self@) {
                Some((value, es, replica_count)) => r matches Ok(x) && x.value == value
                    && x.replica_timestamps@ == es && x.replica_count == replica_count,
                None => r matches Err(HazelcastClientError::Decode(_)),
            }
        } else if self@.message_type == EXCEPTION_TYPE {
            r matches Err(HazelcastClientError::ServerFailure(e)) && spec_placeholder_exception(e)
        } else {
            r == Result::<PnCounterAddResponse, HazelcastClientError>::Err(
                HazelcastClientError::UnexpectedType {
                    expected: RESPONSE_TYPE,
                    actual: self@.message_type,
                },
            )
        }
    }

    fn try_from(self) -> (r: Result<PnCounterAddResponse, HazelcastClientError>) {
        let actual = self.message_type();
        if actual == RESPONSE_TYPE {
            match decode_response(self) {
                Ok(x) => Ok(x),
                Err(e) => Err(HazelcastClientError::Decode(e)),
            }
        } else if actual == EXCEPTION_TYPE {
            Err(
                HazelcastClientError::ServerFailure(
                    crate::messaging::error::decode_response(self),
                ),
            )
        } else {
            Err(
                HazelcastClientError::UnexpectedType { expected: RESPONSE_TYPE, actual },
            )
        }
    }
}


/// A message whose type equals the generic failure type, arriving where
/// this operation's response was expected, converts to a server-failure
/// result carried back to the caller, never to a typed value and never to
/// a crash.
pub proof fn lemma_failure_type_yields_server_failure(
    m: Message,
    r: Result<PnCounterAddResponse, HazelcastClientError>,
)
    requires
        m@.message_type == EXCEPTION_TYPE,
        m.conversion_spec(r),
    ensures
        r matches Err(HazelcastClientError::ServerFailure(e)) && spec_placeholder_exception(e),
{
}

} // verus!
