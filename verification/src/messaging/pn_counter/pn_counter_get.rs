//! The counter-read operation: request by counter name with the caller's
//! observed replica timestamps, response carrying the counter value and
//! the replicas' current timestamps.

use vstd::prelude::*;
use vstd::bytes::spec_u64_from_le_bytes;
use crate::codec::custom::{
    decode_replica_timestamp_list, encode_replica_timestamp_list, spec_parse_replica_list,
    spec_replica_list_bytes,
};
use crate::codec::util::{encode_string, encode_uuid, plain_frame, spec_string_frames};
use crate::codec::{spec_i32_to_le_bytes, spec_i64_of_u64, spec_uuid_to_bytes, write_i32_le,
    ByteReader, Uuid};
use crate::messaging::error::{spec_placeholder_exception, DecodeError, EXCEPTION_TYPE};
use crate::messaging::ReplicaTimestampEntry;
use crate::remote::message::{
    Frame, FrameReader, FrameView, Message, MessageView, DEFAULT_FLAGS,
};
use crate::{HazelcastClientError, TryFrom};

verus! {

pub const REQUEST_TYPE: u32 = 0x1D0100;

pub const RESPONSE_TYPE: u32 = 0x1D0101;

/// A request to read the counter's value.
#[derive(PartialEq, Eq, Debug)]
pub struct PnCounterGetRequest {
    pub name: String,
    pub replica_timestamps: Vec<ReplicaTimestampEntry>,
    pub target_uuid: Uuid,
}

impl PnCounterGetRequest {
    pub fn new(
        name: String,
        replica_timestamps: Vec<ReplicaTimestampEntry>,
        target_uuid: Uuid,
    ) -> (r: PnCounterGetRequest)
        ensures
            r.name == name,
            r.replica_timestamps == replica_timestamps,
            r.target_uuid == target_uuid,
    {
        PnCounterGetRequest { name, replica_timestamps, target_uuid }
    }
}

/// Builds a counter-read request message: partition-id placeholder and
/// target replica UUID in the initial frame, then the counter name and
/// the packed replica timestamps.
pub fn encode_request(id: u64, request: PnCounterGetRequest, initial_frame: Frame) -> (r: Message)
    ensures
        r@ == (MessageView {
            id,
            message_type: REQUEST_TYPE,
            frames: seq![
                (FrameView {
                    content: initial_frame@.content + spec_i32_to_le_bytes(-1i32)
                        + spec_uuid_to_bytes(request.target_uuid),
                    ..initial_frame@
                }),
            ] + spec_string_frames(request.name@) + seq![
                plain_frame(
                    spec_replica_list_bytes(request.replica_timestamps@),
                    DEFAULT_FLAGS,
                ),
            ],
        }),
{
    let PnCounterGetRequest { name, replica_timestamps, target_uuid } = request;
    let mut initial_frame = initial_frame;
    let ghost init0 = initial_frame@;
    let mut fields: Vec<u8> = Vec::new();
    write_i32_le(&mut fields, -1);
    encode_uuid(&mut fields, target_uuid);
    proof {
        vstd::bytes::lemma_auto_spec_u32_to_from_le_bytes();
        vstd::bytes::lemma_auto_spec_u64_to_from_le_bytes();
        assert(fields@ =~= spec_i32_to_le_bytes(-1i32) + spec_uuid_to_bytes(target_uuid));
    }
    initial_frame.append_content(fields);
    let mut message = Message::new(id, REQUEST_TYPE, initial_frame);
    encode_string(&mut message, name);
    encode_replica_timestamp_list(&mut message, &replica_timestamps);
    proof {
        assert(message@.frames =~~= seq![
            (FrameView {
                content: init0.content + spec_i32_to_le_bytes(-1i32) + spec_uuid_to_bytes(
                    target_uuid,
                ),
                ..init0
            }),
        ] + spec_string_frames(name@) + seq![
            plain_frame(spec_replica_list_bytes(replica_timestamps@), DEFAULT_FLAGS),
        ]);
    }
    message
}

/// A counter-read response: the counter value and the replicas' current
/// timestamps.
#[derive(PartialEq, Eq, Debug)]
pub struct PnCounterGetResponse {
    pub value: i64,
    pub replica_timestamps: Vec<ReplicaTimestampEntry>,
}

impl PnCounterGetResponse {
    pub fn new(value: i64, replica_timestamps: Vec<ReplicaTimestampEntry>) -> (r:
        PnCounterGetResponse)
        ensures
            r.value == value,
            r.replica_timestamps == replica_timestamps,
    {
        PnCounterGetResponse { value, replica_timestamps }
    }

    pub fn value(&self) -> (r: i64)
        ensures
            r == self.value,
    {
        self.value
    }

    pub fn replica_timestamps(&self) -> (r: &Vec<ReplicaTimestampEntry>)
        ensures
            r == &self.replica_timestamps,
    {
        &self.replica_timestamps
    }
}

/// The value and timestamps read from a counter-read response: the value
/// after the fixed header of the initial frame, a replica count that is
/// read and discarded, then the packed timestamp records in the next
/// frame.
pub open spec fn spec_decode_get_response(m: MessageView) -> Option<
    (i64, Seq<ReplicaTimestampEntry>),
> {
    if m.frames.len() < 1 {
        None
    } else {
        let c = m.frames[0].content;
        if c.len() < 25 {
            None
        } else {
            let value = spec_i64_of_u64(spec_u64_from_le_bytes(c.subrange(13, 21)));
            match spec_parse_replica_list(m.frames, 1) {
                Some((es, p)) => Some((value, es)),
                None => None,
            }
        }
    }
}

/// Decodes a counter-read response.
pub fn decode_response(message: Message) -> (res: Result<PnCounterGetResponse, DecodeError>)
    ensures
        match spec_decode_get_response(message@) {
            Some((value, es)) => res matches Ok(x) && x.value == value && x.replica_timestamps@
                == es,
            None => res is Err,
        },
{
    let mut r = FrameReader::new(message);
    let initial = match r.next_frame() {
        Ok(f) => f,
        Err(e) => {
            return Err(e);
        },
    };
    let mut initial = initial;
    let mut content = ByteReader::new(initial.content());
    match content.advance(13) {
        Ok(_) => {},
        Err(e) => {
            return Err(e);
        },
    }
    let value = match content.read_i64_le() {
        Ok(v) => v,
        Err(e) => {
            return Err(e);
        },
    };
    let _replica_count = match content.read_i32_le() {
        Ok(v) => v,
        Err(e) => {
            return Err(e);
        },
    };
    let replica_timestamps = match decode_replica_timestamp_list(&mut r) {
        Ok(v) => v,
        Err(e) => {
            return Err(e);
        },
    };
    Ok(PnCounterGetResponse { value, replica_timestamps })
}

impl TryFrom<PnCounterGetResponse> for Message {
    type Error = HazelcastClientError;

    open spec fn conversion_spec(
        &self,
        r: Result<PnCounterGetResponse, HazelcastClientError>,
    ) -> bool {
        if self@.message_type == RESPONSE_TYPE {
            match spec_decode_get_response(self@) {
                Some((value, es)) => r matches Ok(x) && x.value == value && x.replica_timestamps@
                    == es,
                None => r matches Err(HazelcastClientError::Decode(_)),
            }
        } else if self@.message_type == EXCEPTION_TYPE {
            r matches Err(HazelcastClientError::ServerFailure(e)) && spec_placeholder_exception(e)
        } else {
            r == Result::<PnCounterGetResponse, HazelcastClientError>::Err(
                HazelcastClientError::UnexpectedType {
                    expected: RESPONSE_TYPE,
                    actual: self@.message_type,
                },
            )
        }
    }

    fn try_from(self) -> (r: Result<PnCounterGetResponse, HazelcastClientError>) {
        let actual = self.message_type();
        if actual == RESPONSE_TYPE {
            match decode_response(self) {
                Ok(x) => Ok(x),
                Err(e) => Err(HazelcastClientError::Decode(e)),
            }
        } else if actual == EXCEPTION_TYPE {
            Err(
                HazelcastClientError::ServerFailure(
                    crate::messaging::error::decode_response(self),
                ),
            )
        } else {
            Err(
                HazelcastClientError::UnexpectedType { expected: RESPONSE_TYPE, actual },
            )
        }
    }
}


/// A message whose type equals the generic failure type, arriving where
/// this operation's response was expected, converts to a server-failure
/// result carried back to the caller, never to a typed value and never to
/// a crash.
pub proof fn lemma_failure_type_yields_server_failure(
    m: Message,
    r: Result<PnCounterGetResponse, HazelcastClientError>,
)
    requires
        m@.message_type == EXCEPTION_TYPE,
        m.conversion_spec(r),
    ensures
        r matches Err(HazelcastClientError::ServerFailure(e)) && spec_placeholder_exception(e),
{
}

} // verus!
